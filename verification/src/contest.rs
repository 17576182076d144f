//! The contest: its configuration, its lifecycle, and what of it is shown
//! to whom.
//!
//! Whether a caller is an administrator, or may act for a given user, is
//! for the authorization gate to say; the functions here take its answer
//! and hold to it.

use crate::clock::instant_of;
use crate::clock::read_rfc3339;
use crate::clock::rfc3339_reading;
use crate::clock::server_window;
use crate::clock::status_between;
use crate::clock::ContestStatus;
use crate::clock::Timestamp;
use crate::encoding::from_base64;
use crate::encoding::spec_from_base64;
use crate::material::all_text;
use crate::material::contest_material;
use crate::material::homes_among;
use crate::material::is_description_of;
use crate::material::is_title_of;
use crate::material::titles_among;
use crate::material::ContestMaterial;
use crate::material::DirectoryEntry;
use crate::material::MaterialError;
use crate::problem::Problem;
use crate::problem::ProblemData;
use crate::score::sum_of_maxima;
use crate::score::sum_of_values;
use crate::score::ScoreDomain;
use crate::score::ScoreGrade;
use crate::score::ScoreGrading;
use crate::score::ScoreRange;
use crate::score::ScoreValue;
use crate::store::after_resolve;
use crate::store::after_store;
use crate::store::answer_of;
use crate::store::gives_answer;
use crate::store::pack_path_of;
use crate::store::reference_of;
use crate::store::store_answer;
use crate::store::store_succeeds;
use crate::store::BlobRef;
use crate::store::ContentStore;
use crate::store::Resolution;
use crate::store::ResolveError;
use crate::store::StoreIndex;
use crate::user::UserId;
use vstd::prelude::*;

verus! {

/// How many hours a contest lasts that is set up without a configuration.
pub const INITIAL_CONTEST_HOURS: u16 = 4;

/// A user authorization token.
#[derive(Debug)]
pub struct UserToken {
    /// The user token, encoded.
    pub token: String,
    /// The ID of the user associated with the given credentials, if any.
    pub user_id: Option<UserId>,
}

/// The bytes of a file as they travel inside a request.
#[derive(Debug)]
pub struct FileContentInput {
    pub base64: String,
}

/// What is to change in the configuration of the contest; a field that is
/// left out stays as it is.
#[derive(Debug)]
pub struct ContestUpdateInput {
    pub archive_content: Option<FileContentInput>,
    pub start_time: Option<String>,
    pub end_time: Option<String>,
}

/// A configuration to set the contest up with.
#[derive(Debug)]
pub struct ContestInput {
    pub archive_content: FileContentInput,
    pub start_time: String,
    pub end_time: String,
}

/// The configuration of a contest, as it is kept.
#[derive(Debug)]
pub struct ContestData {
    /// Key of the one row there is: always 0.
    pub id: i32,
    /// The reference of the blob that holds the contest's archive.
    pub archive_integrity: String,
    /// Starting time of the contest, as RFC 3339 date.
    pub start_time: String,
    /// End time of the contest, as RFC 3339 date.
    pub end_time: String,
}

/// The configuration of a contest, as it is handed over to be kept.
#[derive(Debug)]
pub struct ContestDataInput {
    pub archive_integrity: String,
    pub start_time: String,
    pub end_time: String,
}

/// The changes to a configuration, as they are handed over to be kept.
#[derive(Debug)]
pub struct ContestChangeset {
    pub archive_integrity: Option<String>,
    pub start_time: Option<String>,
    pub end_time: Option<String>,
}

/// Why a request about the contest was refused.
#[derive(Clone, Copy, Debug, PartialEq, Eq, Structural)]
pub enum ContestError {
    /// No configuration is kept: the contest was never set up.
    NotInitialized,
    /// The start time is no RFC 3339 date.
    MalformedStartTime,
    /// The end time is no RFC 3339 date.
    MalformedEndTime,
    /// The archive is no base64 text.
    MalformedArchive,
    /// The storage medium failed to take the archive.
    IoError,
    /// A title file of the contest does not hold text.
    TitleNotText,
    /// The caller is not allowed to see or do this.
    Forbidden,
    /// The scores sum to more than a score can hold.
    ScoreTooLarge,
    /// A time of a contest that is set up without a configuration does not
    /// read back as an RFC 3339 date, as one beyond the year 9999 does not.
    TimeOutOfRange,
    /// The end of a contest that is set up without a configuration is not
    /// `INITIAL_CONTEST_HOURS` hours after its start.
    WrongWindow,
}

impl FileContentInput {
    /// The bytes of the file, or `None` when the text is no base64.
    pub fn decode(&self) -> (bytes: Option<Vec<u8>>)
        ensures
            bytes is Some <==> spec_from_base64(self.base64@) is Some,
            bytes matches Some(decoded) ==> decoded@ == spec_from_base64(self.base64@)->Some_0,
    {
        from_base64(self.base64.as_str())
    }
}

impl ContestData {
    /// The row that keeps a configuration.
    pub fn new(archive_integrity: String, start_time: String, end_time: String) -> (data: ContestData)
        ensures
            data == (ContestData { id: 0, archive_integrity, start_time, end_time }),
    {
        ContestData { id: 0, archive_integrity, start_time, end_time }
    }
}

impl ContestData {
    /// The row with `changes` made to it: a field that the changes leave
    /// out stays as it is.
    pub fn changed(self, changes: ContestChangeset) -> (data: ContestData)
        ensures
            data.id == self.id,
            data.archive_integrity == match changes.archive_integrity {
                Some(archive_integrity) => archive_integrity,
                None => self.archive_integrity,
            },
            data.start_time == match changes.start_time {
                Some(start_time) => start_time,
                None => self.start_time,
            },
            data.end_time == match changes.end_time {
                Some(end_time) => end_time,
                None => self.end_time,
            },
    {
        ContestData {
            id: self.id,
            archive_integrity: match changes.archive_integrity {
                Some(archive_integrity) => archive_integrity,
                None => self.archive_integrity,
            },
            start_time: match changes.start_time {
                Some(start_time) => start_time,
                None => self.start_time,
            },
            end_time: match changes.end_time {
                Some(end_time) => end_time,
                None => self.end_time,
            },
        }
    }
}

impl Clone for ContestData {
    fn clone(&self) -> (copy: Self)
        ensures
            copy == *self,
    {
        ContestData {
            id: self.id,
            archive_integrity: self.archive_integrity.clone(),
            start_time: self.start_time.clone(),
            end_time: self.end_time.clone(),
        }
    }
}

/// The contest, with its times read.
#[derive(Debug)]
pub struct Contest {
    data: ContestData,
    start: Timestamp,
    end: Timestamp,
}

impl Clone for Contest {
    fn clone(&self) -> (copy: Self)
        ensures
            copy == *self,
    {
        Contest { data: self.data.clone(), start: self.start, end: self.end }
    }
}

/// Information visible to a contestant.
#[derive(Debug)]
pub struct ContestView {
    pub contest: Contest,
    pub user_id: Option<UserId>,
}

/// Set of problems currently active.
#[derive(Debug)]
pub struct ProblemSet {
    pub contest: Contest,
}

impl Clone for ProblemSet {
    fn clone(&self) -> (copy: Self)
        ensures
            copy == *self,
    {
        ProblemSet { contest: self.contest.clone() }
    }
}

/// The problem set, as seen by a user or by nobody in particular.
#[derive(Debug)]
pub struct ProblemSetView {
    pub problem_set: ProblemSet,
    pub user_id: Option<UserId>,
}

/// The progress of one user on the problem set.
#[derive(Debug)]
pub struct ProblemSetTackling {
    pub problem_set: ProblemSet,
    pub user_id: UserId,
}

/// Gives a copy of a user's identifier, where there is one.
fn copy_of(user_id: &Option<UserId>) -> (copy: Option<UserId>)
    ensures
        copy == *user_id,
{
    match user_id {
        Some(user_id) => Some(user_id.clone()),
        None => None,
    }
}

/// Why the rows kept do not make a contest, if they do not: there must be
/// one, and its start and end times must be RFC 3339 dates; what fails
/// first in this order is the reason.
pub open spec fn load_refusal(rows: Seq<ContestData>) -> Option<ContestError> {
    if rows.len() == 0 {
        Some(ContestError::NotInitialized)
    } else if rfc3339_reading(rows[0].start_time@) is None {
        Some(ContestError::MalformedStartTime)
    } else if rfc3339_reading(rows[0].end_time@) is None {
        Some(ContestError::MalformedEndTime)
    } else {
        None
    }
}

/// What of an update comes first to a stop, if anything does: an archive
/// that is no base64 text, then an archive that the storage medium failed
/// to take, then a start time and then an end time that is no RFC 3339 date.
pub open spec fn update_refusal(store: StoreIndex, input: ContestUpdateInput, written: bool) -> Option<ContestError> {
    if input.archive_content matches Some(content) && spec_from_base64(content.base64@) is None {
        Some(ContestError::MalformedArchive)
    } else if input.archive_content matches Some(content) && !store_succeeds(
        store,
        spec_from_base64(content.base64@)->Some_0,
        written,
    ) {
        Some(ContestError::IoError)
    } else if input.start_time matches Some(time) && rfc3339_reading(time@) is None {
        Some(ContestError::MalformedStartTime)
    } else if input.end_time matches Some(time) && rfc3339_reading(time@) is None {
        Some(ContestError::MalformedEndTime)
    } else {
        None
    }
}

/// The store after an archive arrived as base64 text, where `written` tells
/// whether the medium took it: nothing is stored of a text that cannot be
/// decoded.
pub open spec fn after_archive(store: StoreIndex, base64: Seq<char>, written: bool) -> StoreIndex {
    match spec_from_base64(base64) {
        Some(bytes) => after_store(store, bytes, written),
        None => store,
    }
}

/// Why a contest is not set up with nothing but its archive and the given
/// times, if it is not: the archive must be stored, both times must read as
/// RFC 3339 dates, and the end must be `INITIAL_CONTEST_HOURS` hours after
/// the start; what fails first in this order is the reason.
pub open spec fn initial_refusal(
    store: StoreIndex,
    archive: Seq<u8>,
    written: bool,
    start_time: Seq<char>,
    end_time: Seq<char>,
) -> Option<ContestError> {
    if !store_succeeds(store, archive, written) {
        Some(ContestError::IoError)
    } else if rfc3339_reading(start_time) is None || rfc3339_reading(end_time) is None {
        Some(ContestError::TimeOutOfRange)
    } else if instant_of(rfc3339_reading(start_time)->Some_0).spec_hours_later(INITIAL_CONTEST_HOURS) != Some(
        instant_of(rfc3339_reading(end_time)->Some_0),
    ) {
        Some(ContestError::WrongWindow)
    } else {
        None
    }
}

/// Whether `configuration` is what setting a contest up with nothing but
/// its archive and the given times comes to: the refusal if there is one,
/// else the archive's reference with the two times as they are given.
pub open spec fn is_initial_configuration(
    configuration: Result<ContestDataInput, ContestError>,
    store: StoreIndex,
    archive: Seq<u8>,
    written: bool,
    start_time: String,
    end_time: String,
) -> bool {
    match initial_refusal(store, archive, written, start_time@, end_time@) {
        Some(error) => configuration == Err::<ContestDataInput, ContestError>(error),
        None => configuration matches Ok(input) && input.archive_integrity@ == reference_of(archive)
            && input.start_time == start_time && input.end_time == end_time,
    }
}

/// The reference that an update puts in place of the contest's archive, if
/// it brings an archive that can be decoded: it depends on the bytes of the
/// archive alone.
pub open spec fn update_reference(input: ContestUpdateInput) -> Option<Seq<char>> {
    match input.archive_content {
        Some(content) => match spec_from_base64(content.base64@) {
            Some(bytes) => Some(reference_of(bytes)),
            None => None,
        },
        None => None,
    }
}

/// Stores the archive that arrived as `content`, and returns its
/// reference.
fn create_blob(store: &mut ContentStore, content: &FileContentInput, written: bool) -> (created: Result<
    BlobRef,
    ContestError,
>)
    ensures
        final(store)@ == after_archive(old(store)@, content.base64@, written),
        match spec_from_base64(content.base64@) {
            None => created == Err::<BlobRef, ContestError>(ContestError::MalformedArchive),
            Some(bytes) => if store_succeeds(old(store)@, bytes, written) {
                created matches Ok(reference) && reference@ == reference_of(bytes)
            } else {
                created == Err::<BlobRef, ContestError>(ContestError::IoError)
            },
        },
{
    match content.decode() {
        None => Err(ContestError::MalformedArchive),
        Some(bytes) => match store.store(bytes.as_slice(), written) {
            Ok(reference) => Ok(reference),
            Err(_) => Err(ContestError::IoError),
        },
    }
}

/// Lets an administrator through, and nobody else.
fn authorize_admin(is_admin: bool) -> (authorized: Result<(), ContestError>)
    ensures
        is_admin ==> authorized is Ok,
        !is_admin ==> authorized == Err::<(), ContestError>(ContestError::Forbidden),
{
    if is_admin {
        Ok(())
    } else {
        Err(ContestError::Forbidden)
    }
}

impl Contest {
    /// The configuration of the contest.
    pub closed spec fn data(&self) -> ContestData {
        self.data
    }

    /// The instant at which the contest starts.
    pub closed spec fn starts(&self) -> Timestamp {
        self.start
    }

    /// The instant at which the contest ends.
    pub closed spec fn ends(&self) -> Timestamp {
        self.end
    }

    /// The contest as `rows` keep it: the first row counts. The times are
    /// read here, once, so that a configuration with a malformed time is
    /// turned down when it is loaded and never met later.
    pub fn current(rows: &Vec<ContestData>) -> (loaded: Result<Contest, ContestError>)
        ensures
            match load_refusal(rows@) {
                Some(error) => loaded == Err::<Contest, ContestError>(error),
                None => loaded matches Ok(contest) && contest.data() == rows@[0] && contest.starts()
                    == instant_of(rfc3339_reading(rows@[0].start_time@)->Some_0) && contest.ends() == instant_of(
                    rfc3339_reading(rows@[0].end_time@)->Some_0,
                ),
            },
    {
        if rows.len() == 0 {
            return Err(ContestError::NotInitialized);
        }
        let data = rows[0].clone();
        let start = match read_rfc3339(data.start_time.as_str()) {
            Some(read) => read.instant,
            None => {
                return Err(ContestError::MalformedStartTime);
            },
        };
        let end = match read_rfc3339(data.end_time.as_str()) {
            Some(read) => read.instant,
            None => {
                return Err(ContestError::MalformedEndTime);
            },
        };
        Ok(Contest { data, start, end })
    }

    /// The configuration of a contest that is set up with nothing but its
    /// archive, to start at `start_time` and to end at `end_time`. The
    /// archive is stored first, where `written` tells whether the medium
    /// took it, and stays stored whatever comes of the times. The times are
    /// then read back: both must be RFC 3339 dates, so that the contest can
    /// be loaded, and the end must be `INITIAL_CONTEST_HOURS` hours after
    /// the start. They are kept as they are given.
    pub fn init_at(
        store: &mut ContentStore,
        archive: &[u8],
        written: bool,
        start_time: String,
        end_time: String,
    ) -> (configuration: Result<ContestDataInput, ContestError>)
        ensures
            final(store)@ == after_store(old(store)@, archive@, written),
            store_succeeds(old(store)@, archive@, written) ==> final(store)@.blobs.contains(reference_of(archive@)),
            is_initial_configuration(configuration, old(store)@, archive@, written, start_time, end_time),
    {
        let reference = match store.store(archive, written) {
            Ok(reference) => reference,
            Err(_) => {
                return Err(ContestError::IoError);
            },
        };
        let start = match read_rfc3339(start_time.as_str()) {
            Some(read) => read.instant,
            None => {
                return Err(ContestError::TimeOutOfRange);
            },
        };
        let end = match read_rfc3339(end_time.as_str()) {
            Some(read) => read.instant,
            None => {
                return Err(ContestError::TimeOutOfRange);
            },
        };
        match start.hours_later(INITIAL_CONTEST_HOURS) {
            Some(expected) => {
                if expected != end {
                    return Err(ContestError::WrongWindow);
                }
            },
            None => {
                return Err(ContestError::WrongWindow);
            },
        }
        Ok(ContestDataInput { archive_integrity: reference.0, start_time, end_time })
    }

    /// The configuration of a contest that is set up now with nothing but
    /// its archive: it starts now, by the server's clock, and ends
    /// `INITIAL_CONTEST_HOURS` hours later, both as the clock writes them.
    /// The archive is stored, where `written` tells whether the medium took
    /// it. The outcome is that of `init_at` for the two times that the
    /// clock gave, whatever they are.
    pub fn init(store: &mut ContentStore, archive: &[u8], written: bool) -> (configuration: Result<
        ContestDataInput,
        ContestError,
    >)
        ensures
            final(store)@ == after_store(old(store)@, archive@, written),
            store_succeeds(old(store)@, archive@, written) ==> final(store)@.blobs.contains(reference_of(archive@)),
            exists|start_time: String, end_time: String| #[trigger]
                is_initial_configuration(configuration, old(store)@, archive@, written, start_time, end_time),
            configuration == Err::<ContestDataInput, ContestError>(ContestError::IoError) <==> !store_succeeds(
                old(store)@,
                archive@,
                written,
            ),
            configuration matches Ok(input) ==> input.archive_integrity@ == reference_of(archive@)
                && rfc3339_reading(input.start_time@) is Some && rfc3339_reading(input.end_time@) is Some
                && instant_of(rfc3339_reading(input.start_time@)->Some_0).spec_hours_later(INITIAL_CONTEST_HOURS)
                == Some(instant_of(rfc3339_reading(input.end_time@)->Some_0)),
    {
        let (from, until) = server_window(INITIAL_CONTEST_HOURS);
        let ghost start_time = from.text;
        let ghost end_time = until.text;
        let configuration = Self::init_at(store, archive, written, from.text, until.text);
        assert(is_initial_configuration(configuration, old(store)@, archive@, written, start_time, end_time));
        configuration
    }

    /// The configuration that `contest` sets the contest up with: its
    /// archive is decoded and stored, where `written` tells whether the
    /// medium took it, and its times are taken as they are.
    pub fn insert(store: &mut ContentStore, contest: ContestInput, written: bool) -> (configuration: Result<
        ContestDataInput,
        ContestError,
    >)
        ensures
            final(store)@ == after_archive(old(store)@, contest.archive_content.base64@, written),
            match spec_from_base64(contest.archive_content.base64@) {
                None => configuration == Err::<ContestDataInput, ContestError>(ContestError::MalformedArchive),
                Some(bytes) => if store_succeeds(old(store)@, bytes, written) {
                    configuration matches Ok(input) && input.archive_integrity@ == reference_of(bytes)
                        && input.start_time == contest.start_time && input.end_time == contest.end_time
                } else {
                    configuration == Err::<ContestDataInput, ContestError>(ContestError::IoError)
                },
            },
    {
        match create_blob(store, &contest.archive_content, written) {
            Ok(reference) => Ok(
                ContestDataInput {
                    archive_integrity: reference.0,
                    start_time: contest.start_time,
                    end_time: contest.end_time,
                },
            ),
            Err(error) => Err(error),
        }
    }

    /// The changes that `input` asks for, ready to be kept. A new archive
    /// is decoded and stored, where `written` tells whether the medium took
    /// it, and goes in by its reference; a new time is read and goes in as
    /// it is written out again in full. The archive is dealt with first, and
    /// stays stored if a time is then found malformed.
    pub fn update(&self, store: &mut ContentStore, input: ContestUpdateInput, written: bool) -> (changes: Result<
        ContestChangeset,
        ContestError,
    >)
        ensures
            final(store)@ == match input.archive_content {
                Some(content) => after_archive(old(store)@, content.base64@, written),
                None => old(store)@,
            },
            match update_refusal(old(store)@, input, written) {
                Some(error) => changes == Err::<ContestChangeset, ContestError>(error),
                None => changes matches Ok(changeset) && {
                    &&& match update_reference(input) {
                        Some(expected) => changeset.archive_integrity matches Some(reference) && reference@
                            == expected,
                        None => changeset.archive_integrity is None,
                    }
                    &&& match input.start_time {
                        Some(time) => changeset.start_time matches Some(text) && text@ == rfc3339_reading(
                            time@,
                        )->Some_0.2,
                        None => changeset.start_time is None,
                    }
                    &&& match input.end_time {
                        Some(time) => changeset.end_time matches Some(text) && text@ == rfc3339_reading(
                            time@,
                        )->Some_0.2,
                        None => changeset.end_time is None,
                    }
                },
            },
    {
        let archive_integrity = match &input.archive_content {
            Some(content) => match create_blob(store, content, written) {
                Ok(reference) => Some(reference.0),
                Err(error) => {
                    return Err(error);
                },
            },
            None => None,
        };
        let start_time = match &input.start_time {
            Some(time) => match read_rfc3339(time.as_str()) {
                Some(read) => Some(read.text),
                None => {
                    return Err(ContestError::MalformedStartTime);
                },
            },
            None => None,
        };
        let end_time = match &input.end_time {
            Some(time) => match read_rfc3339(time.as_str()) {
                Some(read) => Some(read.text),
                None => {
                    return Err(ContestError::MalformedEndTime);
                },
            },
            None => None,
        };
        Ok(ContestChangeset { archive_integrity, start_time, end_time })
    }

    /// Asks the store for the pack of the contest's archive, in the
    /// namespace `contest`, where `on_disk` tells whether the pack's
    /// directory exists. The answer is that of the store.
    pub fn contest_path(&self, store: &mut ContentStore, on_disk: bool) -> (resolved: Result<
        Resolution,
        ResolveError,
    >)
        ensures
            final(store)@ == after_resolve(old(store)@, self.data().archive_integrity@, on_disk),
            gives_answer(
                resolved,
                answer_of(old(store)@, self.data().archive_integrity@, on_disk),
                pack_path_of("contest"@, self.data().archive_integrity@),
            ),
    {
        let reference = BlobRef(self.data.archive_integrity.clone());
        store.resolve(&reference, "contest", on_disk)
    }

    /// The reference of the blob that holds the contest's archive.
    pub fn archive_integrity(&self) -> (text: &str)
        ensures
            text@ == self.data().archive_integrity@,
    {
        self.data.archive_integrity.as_str()
    }

    /// Start time of the contest, as RFC 3339 date. For display only.
    pub fn start_time(&self) -> (text: &str)
        ensures
            text@ == self.data().start_time@,
    {
        self.data.start_time.as_str()
    }

    /// End time of the contest, as RFC 3339 date. For display only.
    pub fn end_time(&self) -> (text: &str)
        ensures
            text@ == self.data().end_time@,
    {
        self.data.end_time.as_str()
    }

    /// The status of the contest at `now`: not started before the start,
    /// running from the start on and before the end, ended from the end on.
    pub fn status_at(&self, now: Timestamp) -> (status: ContestStatus)
        ensures
            status == status_between(now, self.starts(), self.ends()),
    {
        ContestStatus::at(now, self.start, self.end)
    }

    /// The status of the contest now, by the server's clock: it is the
    /// status at some instant.
    pub fn status(&self) -> (status: ContestStatus)
        ensures
            exists|now: Timestamp| status == status_between(now, self.starts(), self.ends()),
    {
        let (now, _) = server_window(0);
        let status = self.status_at(now.instant);
        assert(status == status_between(now.instant, self.starts(), self.ends()));
        status
    }

    /// The material of the contest, put together from `entries`, the
    /// entries of the directory that the contest's archive unpacks to.
    pub fn material(&self, entries: &Vec<DirectoryEntry>) -> (material: Result<ContestMaterial, ContestError>)
        ensures
            material is Ok <==> all_text(titles_among(entries@)),
            material matches Ok(found) ==> {
                &&& is_title_of(found.title@, titles_among(entries@))
                &&& is_description_of(found.description@, homes_among(entries@))
                &&& found.resources@.len() == 0
                &&& found.attachments@.len() == 0
            },
            material matches Err(error) ==> error == ContestError::TitleNotText,
    {
        match contest_material(entries) {
            Ok(material) => Ok(material),
            Err(MaterialError::TitleNotText) => Err(ContestError::TitleNotText),
        }
    }

    /// All the problems. For administrators: contestants see problems only
    /// through their view.
    pub fn problems(&self, is_admin: bool, all: Vec<Problem>) -> (problems: Result<Vec<Problem>, ContestError>)
        ensures
            is_admin ==> problems == Ok::<Vec<Problem>, ContestError>(all),
            !is_admin ==> problems == Err::<Vec<Problem>, ContestError>(ContestError::Forbidden),
    {
        match authorize_admin(is_admin) {
            Ok(_) => Ok(all),
            Err(error) => Err(error),
        }
    }

    /// The problem set of the contest. For administrators.
    pub fn problem_set(&self, is_admin: bool) -> (problem_set: Result<ProblemSet, ContestError>)
        ensures
            is_admin ==> problem_set == Ok::<ProblemSet, ContestError>(ProblemSet { contest: *self }),
            !is_admin ==> problem_set == Err::<ProblemSet, ContestError>(ContestError::Forbidden),
    {
        match authorize_admin(is_admin) {
            Ok(_) => Ok(ProblemSet { contest: self.clone() }),
            Err(error) => Err(error),
        }
    }

    /// Get the information about this contest visible to a user, where
    /// `authorized` tells whether the caller may act for that user.
    pub fn view(&self, authorized: bool, user_id: Option<UserId>) -> (view: Result<ContestView, ContestError>)
        ensures
            authorized ==> view == Ok::<ContestView, ContestError>(ContestView { contest: *self, user_id }),
            !authorized ==> view == Err::<ContestView, ContestError>(ContestError::Forbidden),
    {
        if authorized {
            ContestView::new(self.clone(), user_id)
        } else {
            Err(ContestError::Forbidden)
        }
    }

    /// The range of the score of the contest: the total of
    /// `problem_ranges`, the ranges of its problems. For administrators.
    pub fn score_range(&self, is_admin: bool, problem_ranges: Vec<ScoreRange>) -> (range: Result<
        ScoreRange,
        ContestError,
    >)
        ensures
            range == if !is_admin {
                Err::<ScoreRange, ContestError>(ContestError::Forbidden)
            } else if sum_of_maxima(problem_ranges@) <= u64::MAX {
                Ok::<ScoreRange, ContestError>(ScoreRange::spec_total(problem_ranges@))
            } else {
                Err::<ScoreRange, ContestError>(ContestError::ScoreTooLarge)
            },
    {
        match authorize_admin(is_admin) {
            Ok(_) => match ScoreRange::try_total(&problem_ranges) {
                Some(range) => Ok(range),
                None => Err(ContestError::ScoreTooLarge),
            },
            Err(error) => Err(error),
        }
    }

    /// The domain of the score of the contest. For administrators.
    pub fn score_domain(&self, is_admin: bool, problem_ranges: Vec<ScoreRange>) -> (domain: Result<
        ScoreDomain,
        ContestError,
    >)
        ensures
            domain == if !is_admin {
                Err::<ScoreDomain, ContestError>(ContestError::Forbidden)
            } else if sum_of_maxima(problem_ranges@) <= u64::MAX {
                Ok::<ScoreDomain, ContestError>(ScoreDomain { range: ScoreRange::spec_total(problem_ranges@) })
            } else {
                Err::<ScoreDomain, ContestError>(ContestError::ScoreTooLarge)
            },
    {
        match self.score_range(is_admin, problem_ranges) {
            Ok(range) => Ok(ScoreDomain { range }),
            Err(error) => Err(error),
        }
    }
}

impl ContestView {
    /// What `user_id`, or nobody in particular, sees of `contest`.
    pub fn new(contest: Contest, user_id: Option<UserId>) -> (view: Result<ContestView, ContestError>)
        ensures
            view == Ok::<ContestView, ContestError>(ContestView { contest, user_id }),
    {
        Ok(ContestView { contest, user_id })
    }

    /// The user who looks, if any.
    pub fn user_id(&self) -> (user_id: &Option<UserId>)
        ensures
            *user_id == self.user_id,
    {
        &self.user_id
    }

    /// The problem set at `now`, if it is shown then: before the contest
    /// has started there is none to be had, lest the problems leak.
    pub fn problem_set_at(&self, now: Timestamp) -> (problem_set: Option<ProblemSet>)
        ensures
            problem_set == if status_between(now, self.contest.starts(), self.contest.ends())
                == ContestStatus::NotStarted {
                None::<ProblemSet>
            } else {
                Some(ProblemSet { contest: self.contest })
            },
    {
        match self.contest.status_at(now) {
            ContestStatus::NotStarted => None,
            ContestStatus::Running => Some(ProblemSet { contest: self.contest.clone() }),
            ContestStatus::Ended => Some(ProblemSet { contest: self.contest.clone() }),
        }
    }

    /// The problem set now, by the server's clock, if it is shown now.
    pub fn problem_set(&self) -> (problem_set: Option<ProblemSet>)
        ensures
            problem_set matches Some(found) ==> found.contest == self.contest,
            exists|now: Timestamp|
                problem_set is None <==> status_between(now, self.contest.starts(), self.contest.ends())
                    == ContestStatus::NotStarted,
    {
        let (now, _) = server_window(0);
        let problem_set = self.problem_set_at(now.instant);
        assert(problem_set is None <==> status_between(now.instant, self.contest.starts(), self.contest.ends())
            == ContestStatus::NotStarted);
        problem_set
    }

    /// Whether the one who looks can send a message: a user can.
    pub fn can_send_message(&self) -> (allowed: bool)
        ensures
            allowed == self.user_id is Some,
    {
        self.user_id.is_some()
    }
}

impl ProblemSet {
    /// The list of problems: `all`, as the contest keeps them.
    pub fn problems(&self, all: Vec<Problem>) -> (problems: Vec<Problem>)
        ensures
            problems == all,
    {
        all
    }

    /// Range of the total score, obtained as the sum of the score range of
    /// each problem.
    pub fn score_range(&self, problem_ranges: Vec<ScoreRange>) -> (range: Result<ScoreRange, ContestError>)
        ensures
            range == if sum_of_maxima(problem_ranges@) <= u64::MAX {
                Ok::<ScoreRange, ContestError>(ScoreRange::spec_total(problem_ranges@))
            } else {
                Err::<ScoreRange, ContestError>(ContestError::ScoreTooLarge)
            },
    {
        match ScoreRange::try_total(&problem_ranges) {
            Some(range) => Ok(range),
            None => Err(ContestError::ScoreTooLarge),
        }
    }

    /// Domain of the total score.
    pub fn score_domain(&self, problem_ranges: Vec<ScoreRange>) -> (domain: Result<ScoreDomain, ContestError>)
        ensures
            domain == if sum_of_maxima(problem_ranges@) <= u64::MAX {
                Ok::<ScoreDomain, ContestError>(ScoreDomain { range: ScoreRange::spec_total(problem_ranges@) })
            } else {
                Err::<ScoreDomain, ContestError>(ContestError::ScoreTooLarge)
            },
    {
        match self.score_range(problem_ranges) {
            Ok(range) => Ok(ScoreDomain { range }),
            Err(error) => Err(error),
        }
    }

    /// Information about this problem set visible to a user, where
    /// `authorized` tells whether the caller may act for that user.
    pub fn view(&self, authorized: bool, user_id: Option<UserId>) -> (view: Result<ProblemSetView, ContestError>)
        ensures
            authorized ==> view == Ok::<ProblemSetView, ContestError>(
                ProblemSetView { problem_set: *self, user_id },
            ),
            !authorized ==> view == Err::<ProblemSetView, ContestError>(ContestError::Forbidden),
    {
        if authorized {
            Ok(ProblemSetView { problem_set: self.clone(), user_id })
        } else {
            Err(ContestError::Forbidden)
        }
    }
}

impl ProblemSetView {
    /// Current progress of the user in solving the problems in this problem
    /// set, if a user looks.
    pub fn tackling(&self) -> (tackling: Option<ProblemSetTackling>)
        ensures
            tackling == match self.user_id {
                Some(user_id) => Some(ProblemSetTackling { problem_set: self.problem_set, user_id }),
                None => None::<ProblemSetTackling>,
            },
    {
        match &self.user_id {
            Some(user_id) => Some(
                ProblemSetTackling { problem_set: self.problem_set.clone(), user_id: user_id.clone() },
            ),
            None => None,
        }
    }

    /// The domain of the problem set, and the grade of the user on it if a
    /// user looks: `problem_ranges` are the ranges of the problems and
    /// `problem_scores` the scores of that user on them.
    pub fn grading(&self, problem_ranges: Vec<ScoreRange>, problem_scores: Vec<ScoreValue>) -> (grading: Result<
        ScoreGrading,
        ContestError,
    >)
        ensures
            grading == if sum_of_maxima(problem_ranges@) > u64::MAX || (self.user_id is Some && sum_of_values(
                problem_scores@,
            ) > u64::MAX) {
                Err::<ScoreGrading, ContestError>(ContestError::ScoreTooLarge)
            } else {
                Ok::<ScoreGrading, ContestError>(
                    ScoreGrading {
                        domain: ScoreDomain { range: ScoreRange::spec_total(problem_ranges@) },
                        grade: if self.user_id is Some {
                            Some(
                                ScoreGrade {
                                    domain: ScoreDomain { range: ScoreRange::spec_total(problem_ranges@) },
                                    value: ScoreValue::spec_total(problem_scores@),
                                },
                            )
                        } else {
                            None
                        },
                    },
                )
            },
    {
        let domain = match ScoreRange::try_total(&problem_ranges) {
            Some(range) => ScoreDomain { range },
            None => {
                return Err(ContestError::ScoreTooLarge);
            },
        };
        let grade = match &self.user_id {
            Some(_) => match ScoreValue::try_total(&problem_scores) {
                Some(value) => Some(ScoreGrade { domain, value }),
                None => {
                    return Err(ContestError::ScoreTooLarge);
                },
            },
            None => None,
        };
        Ok(ScoreGrading { domain, grade })
    }

    /// The problems as the user sees them: each of `problems`, with the
    /// user who looks.
    pub fn problem_views(&self, problems: &Vec<ProblemData>) -> (views: Vec<Problem>)
        ensures
            views@.len() == problems@.len(),
            forall|i: int|
                0 <= i < views@.len() ==> (#[trigger] views@[i]) == (Problem {
                    data: problems@[i],
                    user_id: self.user_id,
                }),
    {
        let mut views: Vec<Problem> = Vec::new();
        let mut i: usize = 0;
        while i < problems.len()
            invariant
                i <= problems.len(),
                views@.len() == i,
                forall|k: int|
                    0 <= k < i ==> (#[trigger] views@[k]) == (Problem {
                        data: problems@[k],
                        user_id: self.user_id,
                    }),
            decreases problems.len() - i,
        {
            views.push(Problem { data: problems[i].clone(), user_id: copy_of(&self.user_id) });
            i += 1;
        }
        views
    }
}

impl ProblemSetTackling {
    /// Total score, obtained as the sum of the score on each problem.
    pub fn score(&self, problem_scores: Vec<ScoreValue>) -> (score: Result<ScoreValue, ContestError>)
        ensures
            score == if sum_of_values(problem_scores@) <= u64::MAX {
                Ok::<ScoreValue, ContestError>(ScoreValue::spec_total(problem_scores@))
            } else {
                Err::<ScoreValue, ContestError>(ContestError::ScoreTooLarge)
            },
    {
        match ScoreValue::try_total(&problem_scores) {
            Some(score) => Ok(score),
            None => Err(ContestError::ScoreTooLarge),
        }
    }

    /// The grade on the problem set: its domain, with the total score.
    pub fn grade(&self, problem_ranges: Vec<ScoreRange>, problem_scores: Vec<ScoreValue>) -> (grade: Result<
        ScoreGrade,
        ContestError,
    >)
        ensures
            grade == if sum_of_maxima(problem_ranges@) <= u64::MAX && sum_of_values(problem_scores@) <= u64::MAX {
                Ok::<ScoreGrade, ContestError>(
                    ScoreGrade {
                        domain: ScoreDomain { range: ScoreRange::spec_total(problem_ranges@) },
                        value: ScoreValue::spec_total(problem_scores@),
                    },
                )
            } else {
                Err::<ScoreGrade, ContestError>(ContestError::ScoreTooLarge)
            },
    {
        let domain = match self.problem_set.score_domain(problem_ranges) {
            Ok(domain) => domain,
            Err(error) => {
                return Err(error);
            },
        };
        match self.score(problem_scores) {
            Ok(value) => Ok(ScoreGrade { domain, value }),
            Err(error) => Err(error),
        }
    }
}

/// A contest that is set up with nothing but its archive can be loaded, is
/// running at its start, and has ended `INITIAL_CONTEST_HOURS` hours later,
/// which is its end.
pub proof fn lemma_initial_contest_runs_its_hours(
    store: StoreIndex,
    archive: Seq<u8>,
    written: bool,
    configuration: ContestDataInput,
    row: ContestData,
)
    requires
        initial_refusal(store, archive, written, configuration.start_time@, configuration.end_time@) is None,
        row.start_time == configuration.start_time,
        row.end_time == configuration.end_time,
    ensures
        load_refusal(seq![row]) is None,
        ({
            let start = instant_of(rfc3339_reading(row.start_time@)->Some_0);
            let end = instant_of(rfc3339_reading(row.end_time@)->Some_0);
            &&& start.spec_hours_later(INITIAL_CONTEST_HOURS) == Some(end)
            &&& status_between(start, start, end) == ContestStatus::Running
            &&& status_between(end, start, end) == ContestStatus::Ended
        }),
{
}

/// The reference of an archive depends on its bytes alone: an update that
/// brings an archive whose bytes were stored before, with times that are
/// left out or well formed, goes through whatever the medium does, puts in
/// place the reference that the earlier store returned, and leaves the
/// store as it was.
pub proof fn lemma_update_returns_the_earlier_reference(
    earlier: StoreIndex,
    bytes: Seq<u8>,
    earlier_written: bool,
    input: ContestUpdateInput,
    written: bool,
)
    requires
        store_answer(earlier, bytes, earlier_written) is Some,
        input.archive_content matches Some(content) && spec_from_base64(content.base64@) == Some(bytes),
        input.start_time matches Some(time) ==> rfc3339_reading(time@) is Some,
        input.end_time matches Some(time) ==> rfc3339_reading(time@) is Some,
    ensures
        ({
            let store = after_store(earlier, bytes, earlier_written);
            &&& update_refusal(store, input, written) is None
            &&& update_reference(input) == store_answer(earlier, bytes, earlier_written)
            &&& after_archive(store, input.archive_content->Some_0.base64@, written) == store
        }),
{
    let store = after_store(earlier, bytes, earlier_written);
    if !earlier.blobs.contains(reference_of(bytes)) {
        assert(store.blobs[earlier.blobs.len() as int] == reference_of(bytes));
    }
    assert(store.blobs.contains(reference_of(bytes)));
}

} // verus!
