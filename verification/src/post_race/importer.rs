//! Importing result files: each session of a file is imported once, under a hash
//! of the file and the session's type.
//!
//! Reading files, parsing them and writing rows are the caller's part. The import
//! says what to do next, and counts what came of it.

use sha2::{Digest, Sha256};
use vstd::prelude::*;

use crate::text;

verus! {

// ---------------------------------------------------------------------------
// Hashes
// ---------------------------------------------------------------------------

/// The digest that `sha2::Sha256::digest` makes of bytes.
pub uninterp spec fn sha256_of(bytes: Seq<u8>) -> Seq<u8>;

/// `sha2::Sha256::digest`: the SHA-256 digest of the bytes, thirty-two bytes long.
/// How the digest comes out of the bytes is not stated.
#[verifier::external_body]
fn sha256(bytes: &Vec<u8>) -> (digest: Vec<u8>)
    ensures
        digest@ == sha256_of(bytes@),
        digest@.len() == 32,
{
    Sha256::digest(bytes).to_vec()
}

/// The hexadecimal digit of a value below sixteen, in lower case.
pub open spec fn hex_digit(d: int) -> char {
    if d < 10 {
        ('0' as int + d) as char
    } else {
        ('a' as int + d - 10) as char
    }
}

/// Bytes in hexadecimal: the higher half of each byte, then the lower.
pub open spec fn hex_of(bytes: Seq<u8>) -> Seq<char> {
    Seq::new(
        2 * bytes.len(),
        |i: int|
            if i % 2 == 0 {
                hex_digit(bytes[i / 2] as int / 16)
            } else {
                hex_digit(bytes[i / 2] as int % 16)
            },
    )
}

/// `hex::encode`: the bytes in hexadecimal, two digits each in lower case, the
/// higher half first.
#[verifier::external_body]
fn hex_text(bytes: &Vec<u8>) -> (s: String)
    ensures
        s@ == hex_of(bytes@),
{
    hex::encode(bytes)
}

/// The hash of a file with this content, in hexadecimal.
pub fn compute_file_hash(content: &Vec<u8>) -> (hash: String)
    ensures
        hash@ == hex_of(sha256_of(content@)),
        hash@.len() == 64,
{
    hex_text(&sha256(content))
}

/// What the hash of a session is made of: the content of its file, then its type.
pub open spec fn session_content(content: Seq<u8>, session_type: Seq<char>) -> Seq<u8> {
    content + vstd::utf8::encode_utf8(session_type)
}

/// The hash of a session, in hexadecimal.
pub open spec fn session_hash_of(content: Seq<u8>, session_type: Seq<char>) -> Seq<char> {
    hex_of(sha256_of(session_content(content, session_type)))
}

/// The hash of a session: that of the content of its file followed by its type.
pub fn session_hash(content: &Vec<u8>, session_type: &str) -> (hash: String)
    ensures
        hash@ == session_hash_of(content@, session_type@),
        hash@.len() == 64,
{
    let mut bytes: Vec<u8> = vstd::slice::slice_to_vec(content.as_slice());
    bytes.extend_from_slice(session_type.as_bytes());
    proof {
        assert(bytes@ == session_content(content@, session_type@));
    }
    compute_file_hash(&bytes)
}

/// The sessions of one file are told apart: what their hashes are made of differs
/// where their types do.
pub proof fn law_sessions_of_a_file_are_told_apart(content: Seq<u8>, a: Seq<char>, b: Seq<char>)
    ensures
        session_content(content, a) == session_content(content, b) <==> a == b,
{
    if session_content(content, a) == session_content(content, b) {
        let ea = vstd::utf8::encode_utf8(a);
        let eb = vstd::utf8::encode_utf8(b);
        assert(session_content(content, a).skip(content.len() as int) == ea);
        assert(session_content(content, b).skip(content.len() as int) == eb);
        vstd::utf8::encode_utf8_decode_utf8(a);
        vstd::utf8::encode_utf8_decode_utf8(b);
    }
}

// ---------------------------------------------------------------------------
// What an import did
// ---------------------------------------------------------------------------

/// What an import did.
#[derive(Debug)]
pub struct ImportResult {
    pub total_files: usize,
    pub new_imported: usize,
    pub skipped: usize,
    pub errors: Vec<String>,
}

/// What an import did so far, and where it stands.
pub struct ImportState {
    /// The files to import.
    pub files: Seq<Seq<char>>,
    /// The file that the import is at.
    pub file: int,
    /// The content of that file, and the types of its sessions.
    pub content: Seq<u8>,
    pub types: Seq<Seq<char>>,
    /// The session that the import is at.
    pub session: int,
    pub total_files: int,
    pub new_imported: int,
    pub skipped: int,
    pub errors: Seq<Seq<char>>,
}

/// What to do next.
pub enum NextStep {
    /// Read and parse this file.
    Read { path: Seq<char> },
    /// See whether a session with this hash is there already.
    LookUp { hash: Seq<char> },
    /// Insert this session of the file under this hash.
    Insert { hash: Seq<char>, session: int },
    /// Nothing; the import is over.
    Done,
}

impl ImportState {
    /// The path of the file that the import is at.
    pub open spec fn path(self) -> Seq<char> {
        self.files[self.file]
    }

    /// The hash of the session that the import is at.
    pub open spec fn hash(self) -> Seq<char> {
        session_hash_of(self.content, self.types[self.session])
    }

    /// What comes first at a file.
    pub open spec fn at_file(self) -> NextStep {
        if self.file < self.files.len() {
            NextStep::Read { path: self.path() }
        } else {
            NextStep::Done
        }
    }

    /// The state at the next file.
    pub open spec fn next_file(self) -> (ImportState, NextStep) {
        let s = ImportState {
            file: self.file + 1,
            types: Seq::empty(),
            session: 0,
            ..self
        };
        (s, s.at_file())
    }

    /// The state at the next session of the file, or at the next file.
    pub open spec fn next_session(self) -> (ImportState, NextStep) {
        let s = ImportState { session: self.session + 1, ..self };
        if s.session < s.types.len() {
            (s, NextStep::LookUp { hash: s.hash() })
        } else {
            s.next_file()
        }
    }

    /// With one more error.
    pub open spec fn with_error(self, error: Seq<char>) -> ImportState {
        ImportState { errors: self.errors.push(error), ..self }
    }

    /// An error of the session that the import is at.
    pub open spec fn session_error(self, what: Seq<char>, error: Seq<char>) -> ImportState {
        self.with_error(self.path() + " ["@ + self.types[self.session] + "]: "@ + what + error)
    }

    /// The file could not be read.
    pub open spec fn unreadable(self, error: Seq<char>) -> (ImportState, NextStep) {
        self.with_error(self.path() + ": read error — "@ + error).next_file()
    }

    /// The file could not be parsed.
    pub open spec fn unparsable(self, error: Seq<char>) -> (ImportState, NextStep) {
        self.with_error(self.path() + ": parse error — "@ + error).next_file()
    }

    /// The file has this content and sessions of these types. A file without a
    /// session counts as skipped.
    pub open spec fn parsed(
        self,
        content: Seq<u8>,
        types: Seq<Seq<char>>,
    ) -> (ImportState, NextStep) {
        let s = ImportState { content, types, session: 0, ..self };
        if types.len() == 0 {
            ImportState { skipped: s.skipped + 1, ..s }.next_file()
        } else {
            (s, NextStep::LookUp { hash: s.hash() })
        }
    }

    /// The session is there already.
    pub open spec fn known(self) -> (ImportState, NextStep) {
        ImportState { skipped: self.skipped + 1, ..self }.next_session()
    }

    /// The session is not there yet.
    pub open spec fn unknown(self) -> (ImportState, NextStep) {
        (self, NextStep::Insert { hash: self.hash(), session: self.session })
    }

    /// The session was inserted.
    pub open spec fn inserted(self) -> (ImportState, NextStep) {
        ImportState { new_imported: self.new_imported + 1, ..self }.next_session()
    }

    /// The session could not be set apart from the others.
    pub open spec fn savepoint_failed(self, error: Seq<char>) -> (ImportState, NextStep) {
        self.session_error("savepoint error — "@, error).next_session()
    }

    /// The session could not be inserted.
    pub open spec fn insert_failed(self, error: Seq<char>) -> (ImportState, NextStep) {
        self.session_error("insert error — "@, error).next_session()
    }
}

/// Where an import of these files starts.
pub open spec fn import_start(files: Seq<Seq<char>>) -> ImportState {
    ImportState {
        files,
        file: 0,
        content: Seq::empty(),
        types: Seq::empty(),
        session: 0,
        total_files: files.len() as int,
        new_imported: 0,
        skipped: 0,
        errors: Seq::empty(),
    }
}

// ---------------------------------------------------------------------------
// The import
// ---------------------------------------------------------------------------

/// What to do next.
#[derive(Debug)]
pub enum ImportStep {
    /// Read and parse this file.
    Read { path: String },
    /// See whether a session with this hash is there already.
    LookUp { hash: String },
    /// Insert this session of the file under this hash.
    Insert { hash: String, session: usize },
    /// Nothing; the import is over.
    Done,
}

impl View for ImportStep {
    type V = NextStep;

    open spec fn view(&self) -> NextStep {
        match self {
            ImportStep::Read { path } => NextStep::Read { path: path@ },
            ImportStep::LookUp { hash } => NextStep::LookUp { hash: hash@ },
            ImportStep::Insert { hash, session } => NextStep::Insert {
                hash: hash@,
                session: *session as int,
            },
            ImportStep::Done => NextStep::Done,
        }
    }
}

/// An import that is under way.
#[derive(Debug)]
pub struct Import {
    files: Vec<String>,
    file: usize,
    content: Vec<u8>,
    types: Vec<String>,
    session: usize,
    result: ImportResult,
}

impl View for Import {
    type V = ImportState;

    closed spec fn view(&self) -> ImportState {
        ImportState {
            files: text::views(self.files@),
            file: self.file as int,
            content: self.content@,
            types: text::views(self.types@),
            session: self.session as int,
            total_files: self.result.total_files as int,
            new_imported: self.result.new_imported as int,
            skipped: self.result.skipped as int,
            errors: text::views(self.result.errors@),
        }
    }
}

/// Starts to import these files.
pub fn import_new_sessions(files: Vec<String>) -> (r: (Import, ImportStep))
    ensures
        r.0@ == import_start(text::views(files@)),
        r.1@ == r.0@.at_file(),
{
    let total_files = files.len();
    let import = Import {
        files,
        file: 0,
        content: Vec::new(),
        types: Vec::new(),
        session: 0,
        result: ImportResult { total_files, new_imported: 0, skipped: 0, errors: Vec::new() },
    };
    proof {
        assert(import@.types == Seq::<Seq<char>>::empty());
        assert(import@.errors == Seq::<Seq<char>>::empty());
    }
    let step = import.step_at_file();
    (import, step)
}

impl Import {
    /// What comes first at a file.
    fn step_at_file(&self) -> (step: ImportStep)
        ensures
            step@ == self@.at_file(),
    {
        if self.file < self.files.len() {
            ImportStep::Read { path: self.files[self.file].clone() }
        } else {
            ImportStep::Done
        }
    }

    /// Goes on to the next file.
    fn to_next_file(&mut self) -> (step: ImportStep)
        requires
            old(self)@.file < old(self)@.files.len(),
        ensures
            (final(self)@, step@) == old(self)@.next_file(),
    {
        proof {
            assert(self.file < self.files.len());
        }
        self.file = self.file + 1;
        self.types = Vec::new();
        self.session = 0;
        proof {
            assert(self@.types == Seq::<Seq<char>>::empty());
        }
        self.step_at_file()
    }

    /// Goes on to the next session of the file, or to the next file.
    fn to_next_session(&mut self) -> (step: ImportStep)
        requires
            old(self)@.file < old(self)@.files.len(),
            old(self)@.session < old(self)@.types.len(),
        ensures
            (final(self)@, step@) == old(self)@.next_session(),
    {
        proof {
            assert(self.session < self.types.len());
        }
        self.session = self.session + 1;
        if self.session < self.types.len() {
            ImportStep::LookUp { hash: session_hash(&self.content, &self.types[self.session]) }
        } else {
            self.to_next_file()
        }
    }

    /// Takes down an error.
    fn take_down(&mut self, error: String)
        ensures
            final(self)@ == old(self)@.with_error(error@),
    {
        self.result.errors.push(error);
        proof {
            assert(self@.errors == old(self)@.errors.push(error@));
        }
    }

    /// Takes down an error of the session that the import is at.
    fn take_down_session(&mut self, what: &str, error: &str)
        requires
            old(self)@.file < old(self)@.files.len(),
            old(self)@.session < old(self)@.types.len(),
        ensures
            final(self)@ == old(self)@.session_error(what@, error@),
    {
        let mut s = self.files[self.file].clone();
        s.append(" [");
        s.append(self.types[self.session].as_str());
        s.append("]: ");
        s.append(what);
        s.append(error);
        self.take_down(s);
    }

    /// The file could not be read.
    pub fn unreadable(&mut self, error: &str) -> (step: ImportStep)
        requires
            old(self)@.file < old(self)@.files.len(),
        ensures
            (final(self)@, step@) == old(self)@.unreadable(error@),
    {
        let mut s = self.files[self.file].clone();
        s.append(": read error — ");
        s.append(error);
        self.take_down(s);
        self.to_next_file()
    }

    /// The file could not be parsed.
    pub fn unparsable(&mut self, error: &str) -> (step: ImportStep)
        requires
            old(self)@.file < old(self)@.files.len(),
        ensures
            (final(self)@, step@) == old(self)@.unparsable(error@),
    {
        let mut s = self.files[self.file].clone();
        s.append(": parse error — ");
        s.append(error);
        self.take_down(s);
        self.to_next_file()
    }

    /// The file has this content and sessions of these types.
    pub fn parsed(&mut self, content: Vec<u8>, types: Vec<String>) -> (step: ImportStep)
        requires
            old(self)@.file < old(self)@.files.len(),
            old(self)@.skipped < usize::MAX,
        ensures
            (final(self)@, step@) == old(self)@.parsed(content@, text::views(types@)),
    {
        self.content = content;
        self.types = types;
        self.session = 0;
        if self.types.len() == 0 {
            self.result.skipped = self.result.skipped + 1;
            self.to_next_file()
        } else {
            ImportStep::LookUp { hash: session_hash(&self.content, &self.types[0]) }
        }
    }

    /// The session is there already.
    pub fn known(&mut self) -> (step: ImportStep)
        requires
            old(self)@.file < old(self)@.files.len(),
            old(self)@.session < old(self)@.types.len(),
            old(self)@.skipped < usize::MAX,
        ensures
            (final(self)@, step@) == old(self)@.known(),
    {
        self.result.skipped = self.result.skipped + 1;
        self.to_next_session()
    }

    /// The session is not there yet.
    pub fn unknown(&self) -> (step: ImportStep)
        requires
            self@.session < self@.types.len(),
        ensures
            (self@, step@) == self@.unknown(),
    {
        ImportStep::Insert {
            hash: session_hash(&self.content, &self.types[self.session]),
            session: self.session,
        }
    }

    /// The session could not be set apart from the others.
    pub fn savepoint_failed(&mut self, error: &str) -> (step: ImportStep)
        requires
            old(self)@.file < old(self)@.files.len(),
            old(self)@.session < old(self)@.types.len(),
        ensures
            (final(self)@, step@) == old(self)@.savepoint_failed(error@),
    {
        self.take_down_session("savepoint error — ", error);
        self.to_next_session()
    }

    /// The session was inserted.
    pub fn inserted(&mut self) -> (step: ImportStep)
        requires
            old(self)@.file < old(self)@.files.len(),
            old(self)@.session < old(self)@.types.len(),
            old(self)@.new_imported < usize::MAX,
        ensures
            (final(self)@, step@) == old(self)@.inserted(),
    {
        self.result.new_imported = self.result.new_imported + 1;
        self.to_next_session()
    }

    /// The session could not be inserted.
    pub fn insert_failed(&mut self, error: &str) -> (step: ImportStep)
        requires
            old(self)@.file < old(self)@.files.len(),
            old(self)@.session < old(self)@.types.len(),
        ensures
            (final(self)@, step@) == old(self)@.insert_failed(error@),
    {
        self.take_down_session("insert error — ", error);
        self.to_next_session()
    }

    /// What the import did.
    pub fn into_result(self) -> (r: ImportResult)
        ensures
            r.total_files == self@.total_files,
            r.new_imported == self@.new_imported,
            r.skipped == self@.skipped,
            text::views(r.errors@) == self@.errors,
    {
        self.result
    }
}

// ---------------------------------------------------------------------------
// A whole import
// ---------------------------------------------------------------------------

/// What a file turns out to be.
pub enum FileContent {
    Unreadable(Seq<char>),
    Unparsable(Seq<char>),
    /// Its content, and the types of its sessions.
    Sessions(Seq<u8>, Seq<Seq<char>>),
}

/// What becomes of a session that is to be inserted.
pub enum Insertion {
    Inserted,
    SavepointFailed(Seq<char>),
    Failed(Seq<char>),
}

/// The files, what they turn out to be by their paths, and what becomes of a session
/// that is to be inserted, by the number of its file and its own.
pub struct World {
    pub disk: spec_fn(Seq<char>) -> FileContent,
    pub insertions: spec_fn(int, int) -> Insertion,
}

impl ImportState {
    /// The file was read, with what came of it.
    pub open spec fn read(self, file: FileContent) -> (ImportState, NextStep) {
        match file {
            FileContent::Unreadable(e) => self.unreadable(e),
            FileContent::Unparsable(e) => self.unparsable(e),
            FileContent::Sessions(content, types) => self.parsed(content, types),
        }
    }

    /// The session was to be inserted, with what came of it.
    pub open spec fn tried(self, insertion: Insertion) -> (ImportState, NextStep) {
        match insertion {
            Insertion::Inserted => self.inserted(),
            Insertion::SavepointFailed(e) => self.savepoint_failed(e),
            Insertion::Failed(e) => self.insert_failed(e),
        }
    }

    /// How many results were counted so far: sessions imported, sessions and files
    /// skipped, and errors.
    pub open spec fn counted(self) -> int {
        self.new_imported + self.skipped + self.errors.len()
    }
}

/// How an import ends that stands at `step`, and which hashes are there then, if
/// those in `there` are there at first.
pub open spec fn import_end(
    s: ImportState,
    step: NextStep,
    world: World,
    there: Set<Seq<char>>,
) -> (ImportState, Set<Seq<char>>)
    decreases
            s.files.len() - s.file,
            if step is Read {
                1int
            } else {
                0
            },
            s.types.len() - s.session,
            if step is LookUp {
                1int
            } else {
                0
            },
{
    if s.file >= s.files.len() {
        (s, there)
    } else {
        match step {
            NextStep::Done => (s, there),
            NextStep::Read { path } => {
                let next = s.read((world.disk)(path));
                import_end(next.0, next.1, world, there)
            },
            NextStep::LookUp { hash } => if s.session >= s.types.len() {
                (s, there)
            } else {
                let next = if there.contains(hash) {
                    s.known()
                } else {
                    s.unknown()
                };
                import_end(next.0, next.1, world, there)
            },
            NextStep::Insert { hash, session } => if s.session >= s.types.len() {
                (s, there)
            } else {
                let fate = (world.insertions)(s.file, s.session);
                let next = s.tried(fate);
                let then = if fate is Inserted {
                    there.insert(hash)
                } else {
                    there
                };
                import_end(next.0, next.1, world, then)
            },
        }
    }
}

/// How many results a file is owed: one for each of its sessions, and one if it has
/// none or could not be read.
pub open spec fn results_of(file: FileContent) -> int {
    match file {
        FileContent::Sessions(_, types) => if types.len() == 0 {
            1
        } else {
            types.len() as int
        },
        _ => 1,
    }
}

/// How many results the files from number `from` on are owed.
pub open spec fn results_owed(
    files: Seq<Seq<char>>,
    disk: spec_fn(Seq<char>) -> FileContent,
    from: int,
) -> int
    decreases files.len() - from,
{
    if from >= files.len() {
        0
    } else {
        results_of(disk(files[from])) + results_owed(files, disk, from + 1)
    }
}

/// How many results an import at `step` still owes.
spec fn still_owed(s: ImportState, step: NextStep, world: World) -> int {
    match step {
        NextStep::LookUp { .. } | NextStep::Insert { .. } => s.types.len() - s.session
            + results_owed(s.files, world.disk, s.file + 1),
        _ => results_owed(s.files, world.disk, s.file),
    }
}

/// Whether an import can stand at this step: it reads the file that it is at, or is
/// at one of that file's sessions.
spec fn in_step(s: ImportState, step: NextStep) -> bool {
    &&& 0 <= s.file <= s.files.len()
    &&& match step {
        NextStep::LookUp { .. } | NextStep::Insert { .. } => s.file < s.files.len() && 0
            <= s.session < s.types.len(),
        _ => step == s.at_file(),
    }
}

proof fn lemma_every_result_counts(
    s: ImportState,
    step: NextStep,
    world: World,
    there: Set<Seq<char>>,
)
    requires
        in_step(s, step),
    ensures
        ({
            let end = import_end(s, step, world, there).0;
            &&& end.counted() == s.counted() + still_owed(s, step, world)
            &&& end.file == s.files.len()
            &&& end.total_files == s.total_files
        }),
    decreases
            s.files.len() - s.file,
            if step is Read {
                1int
            } else {
                0
            },
            s.types.len() - s.session,
            if step is LookUp {
                1int
            } else {
                0
            },
{
    if s.file < s.files.len() {
        match step {
            NextStep::Done => {},
            NextStep::Read { path } => {
                let next = s.read((world.disk)(path));
                lemma_every_result_counts(next.0, next.1, world, there);
            },
            NextStep::LookUp { hash } => {
                let next = if there.contains(hash) {
                    s.known()
                } else {
                    s.unknown()
                };
                lemma_every_result_counts(next.0, next.1, world, there);
            },
            NextStep::Insert { hash, session } => {
                let fate = (world.insertions)(s.file, s.session);
                let next = s.tried(fate);
                let then = if fate is Inserted {
                    there.insert(hash)
                } else {
                    there
                };
                lemma_every_result_counts(next.0, next.1, world, then);
            },
        }
    }
}

/// An import gets through all of its files whatever goes wrong, and nothing is lost
/// from its result: the sessions imported, those and the files skipped and the errors
/// are together one for each session, and one for each file that has no session or
/// could not be read or parsed.
pub proof fn law_every_session_and_file_is_accounted_for(
    files: Seq<Seq<char>>,
    world: World,
    there: Set<Seq<char>>,
)
    ensures
        ({
            let start = import_start(files);
            let end = import_end(start, start.at_file(), world, there).0;
            &&& end.file == files.len()
            &&& end.total_files == files.len()
            &&& end.new_imported + end.skipped + end.errors.len() == results_owed(
                files,
                world.disk,
                0,
            )
        }),
{
    let start = import_start(files);
    lemma_every_result_counts(start, start.at_file(), world, there);
}

// ---------------------------------------------------------------------------
// Importing twice
// ---------------------------------------------------------------------------

/// What is there stays there.
proof fn lemma_import_keeps(s: ImportState, step: NextStep, world: World, there: Set<Seq<char>>)
    ensures
        there.subset_of(import_end(s, step, world, there).1),
    decreases
            s.files.len() - s.file,
            if step is Read {
                1int
            } else {
                0
            },
            s.types.len() - s.session,
            if step is LookUp {
                1int
            } else {
                0
            },
{
    if s.file < s.files.len() {
        match step {
            NextStep::Done => {},
            NextStep::Read { path } => {
                let next = s.read((world.disk)(path));
                lemma_import_keeps(next.0, next.1, world, there);
            },
            NextStep::LookUp { hash } => {
                if s.session < s.types.len() {
                    let next = if there.contains(hash) {
                        s.known()
                    } else {
                        s.unknown()
                    };
                    lemma_import_keeps(next.0, next.1, world, there);
                }
            },
            NextStep::Insert { hash, session } => {
                if s.session < s.types.len() {
                    let fate = (world.insertions)(s.file, s.session);
                    let next = s.tried(fate);
                    let then = if fate is Inserted {
                        there.insert(hash)
                    } else {
                        there
                    };
                    lemma_import_keeps(next.0, next.1, world, then);
                }
            },
        }
    }
}

/// Whether two imports of the same files stand at the same place.
spec fn same_place(a: ImportState, b: ImportState) -> bool {
    a.files == b.files && a.file == b.file && a.content == b.content && a.types == b.types
        && a.session == b.session
}

/// Whether every session that is to be inserted is.
pub open spec fn all_inserted(world: World) -> bool {
    forall|file: int, session: int| #[trigger] (world.insertions)(file, session) is Inserted
}

/// Where everything is there that an import will put there, a second one at the
/// same place skips at least what the first one inserts, and inserts nothing if the
/// first one met no error in inserting.
proof fn lemma_second_import(
    a: ImportState,
    b: ImportState,
    step: NextStep,
    world: World,
    again: World,
    there: Set<Seq<char>>,
    all: Set<Seq<char>>,
)
    requires
        same_place(a, b),
        world.disk == again.disk,
        !(step is Insert),
        step is LookUp ==> step == (NextStep::LookUp { hash: a.hash() }),
        import_end(a, step, world, there).1.subset_of(all),
    ensures
        ({
            let first = import_end(a, step, world, there).0;
            let second = import_end(b, step, again, all);
            &&& second.0.skipped - b.skipped >= first.new_imported - a.new_imported
            &&& all_inserted(world) ==> second.1 == all && second.0.new_imported == b.new_imported
        }),
    decreases
            a.files.len() - a.file,
            if step is Read {
                1int
            } else {
                0
            },
            a.types.len() - a.session,
{
    if a.file < a.files.len() {
        match step {
            NextStep::Read { path } => {
                let na = a.read((world.disk)(path));
                let nb = b.read((world.disk)(path));
                lemma_second_import(na.0, nb.0, na.1, world, again, there, all);
            },
            NextStep::LookUp { hash } => {
                if a.session < a.types.len() {
                    if there.contains(hash) {
                        let na = a.known();
                        let nb = b.known();
                        lemma_import_keeps(na.0, na.1, world, there);
                        assert(all.contains(hash));
                        lemma_second_import(na.0, nb.0, na.1, world, again, there, all);
                    } else {
                        let put = a.unknown();
                        let fate = (world.insertions)(a.file, a.session);
                        let na = a.tried(fate);
                        let with = if fate is Inserted {
                            there.insert(hash)
                        } else {
                            there
                        };
                        assert(import_end(a, step, world, there) == import_end(
                            put.0,
                            put.1,
                            world,
                            there,
                        ));
                        assert(import_end(put.0, put.1, world, there) == import_end(
                            na.0,
                            na.1,
                            world,
                            with,
                        ));
                        lemma_import_keeps(na.0, na.1, world, with);
                        assert(fate is Inserted ==> with.contains(hash) && all.contains(hash));
                        if all.contains(hash) {
                            let nb = b.known();
                            lemma_second_import(na.0, nb.0, na.1, world, again, with, all);
                        } else {
                            let put_again = b.unknown();
                            let fate_again = (again.insertions)(b.file, b.session);
                            let nb = b.tried(fate_again);
                            let all_with = if fate_again is Inserted {
                                all.insert(hash)
                            } else {
                                all
                            };
                            assert(import_end(b, step, again, all) == import_end(
                                put_again.0,
                                put_again.1,
                                again,
                                all,
                            ));
                            assert(import_end(put_again.0, put_again.1, again, all) == import_end(
                                nb.0,
                                nb.1,
                                again,
                                all_with,
                            ));
                            lemma_second_import(na.0, nb.0, na.1, world, again, with, all_with);
                        }
                    }
                }
            },
            _ => {},
        }
    }
}

/// Importing the same files again skips at least every session that the first import
/// took in. It imports nothing where the first import could insert every session that
/// it had to.
pub proof fn law_importing_again_imports_nothing(
    files: Seq<Seq<char>>,
    world: World,
    again: World,
    there: Set<Seq<char>>,
)
    requires
        world.disk == again.disk,
    ensures
        ({
            let start = import_start(files);
            let first = import_end(start, start.at_file(), world, there);
            let second = import_end(start, start.at_file(), again, first.1);
            &&& second.0.skipped >= first.0.new_imported
            &&& all_inserted(world) ==> second.0.new_imported == 0 && second.1 == first.1
        }),
{
    let start = import_start(files);
    let first = import_end(start, start.at_file(), world, there);
    lemma_second_import(start, start, start.at_file(), world, again, there, first.1);
}

// ---------------------------------------------------------------------------
// What each step does
// ---------------------------------------------------------------------------

/// The hash of a session is made of the bytes of its file, and after them the bytes of
/// its type.
pub proof fn law_a_session_is_hashed_with_its_file(content: Seq<u8>, session_type: Seq<char>)
    ensures
        session_content(content, session_type).take(content.len() as int) == content,
        session_content(content, session_type).skip(content.len() as int)
            == vstd::utf8::encode_utf8(session_type),
{
    let all = session_content(content, session_type);
    assert(all.take(content.len() as int) =~= content);
    assert(all.skip(content.len() as int) =~= vstd::utf8::encode_utf8(session_type));
}

/// A hexadecimal digit stands for its value.
pub proof fn law_a_hex_digit_stands_for_its_value(d: int)
    requires
        0 <= d < 16,
    ensures
        d < 10 ==> hex_digit(d) as int == '0' as int + d,
        d >= 10 ==> hex_digit(d) as int == 'a' as int + (d - 10),
{
}

/// Different bytes are written differently.
pub proof fn law_hex_tells_bytes_apart(a: Seq<u8>, b: Seq<u8>)
    requires
        hex_of(a) == hex_of(b),
    ensures
        a == b,
{
    assert(hex_of(a).len() == 2 * a.len() && hex_of(b).len() == 2 * b.len());
    assert forall|i: int| 0 <= i < a.len() implies a[i] == b[i] by {
        assert(hex_of(a)[2 * i] == hex_digit(a[i] as int / 16));
        assert(hex_of(b)[2 * i] == hex_digit(b[i] as int / 16));
        assert(hex_of(a)[2 * i + 1] == hex_digit(a[i] as int % 16));
        assert(hex_of(b)[2 * i + 1] == hex_digit(b[i] as int % 16));
        assert(a[i] as int / 16 < 16 && b[i] as int / 16 < 16);
        law_a_hex_digit_stands_for_its_value(a[i] as int / 16);
        law_a_hex_digit_stands_for_its_value(b[i] as int / 16);
        law_a_hex_digit_stands_for_its_value(a[i] as int % 16);
        law_a_hex_digit_stands_for_its_value(b[i] as int % 16);
    }
    assert(a =~= b);
}

/// An import begins at its first file, with nothing done, and is over at once where
/// there is none.
pub proof fn law_an_import_begins_at_its_first_file(files: Seq<Seq<char>>)
    ensures
        import_start(files).total_files == files.len(),
        import_start(files).new_imported == 0,
        import_start(files).skipped == 0,
        import_start(files).errors.len() == 0,
        files.len() > 0 ==> import_start(files).at_file() == (NextStep::Read { path: files[0] }),
        files.len() == 0 ==> import_start(files).at_file() == NextStep::Done,
{
}

/// A file that cannot be read or parsed is an error, with its path and what went wrong,
/// and the import goes on with the next file.
pub proof fn law_a_bad_file_is_an_error(s: ImportState, error: Seq<char>)
    requires
        0 <= s.file < s.files.len(),
    ensures
        ({
            let r = s.unreadable(error);
            let p = s.unparsable(error);
            &&& r.0.errors == s.errors.push(s.files[s.file] + ": read error — "@ + error)
            &&& p.0.errors == s.errors.push(s.files[s.file] + ": parse error — "@ + error)
            &&& r.0.new_imported == s.new_imported && r.0.skipped == s.skipped
            &&& p.0.new_imported == s.new_imported && p.0.skipped == s.skipped
            &&& r.0.file == s.file + 1 && p.0.file == s.file + 1
            &&& s.file + 1 < s.files.len() ==> r.1 == (NextStep::Read {
                path: s.files[s.file + 1],
            }) && p.1 == (NextStep::Read { path: s.files[s.file + 1] })
            &&& s.file + 1 == s.files.len() ==> r.1 == NextStep::Done && p.1 == NextStep::Done
        }),
{
}

/// Of a file that was parsed its first session is looked up, under the hash of the
/// file's bytes and the session's type; a file without sessions is skipped.
pub proof fn law_a_parsed_file_begins_with_its_first_session(
    s: ImportState,
    content: Seq<u8>,
    types: Seq<Seq<char>>,
)
    requires
        0 <= s.file < s.files.len(),
    ensures
        ({
            let r = s.parsed(content, types);
            &&& r.0.errors == s.errors && r.0.new_imported == s.new_imported
            &&& types.len() > 0 ==> r.0.skipped == s.skipped && r.0.file == s.file && r.0.session
                == 0 && r.1 == (NextStep::LookUp { hash: session_hash_of(content, types[0]) })
            &&& types.len() == 0 ==> r.0.skipped == s.skipped + 1 && r.0.file == s.file + 1
            &&& types.len() == 0 && s.file + 1 < s.files.len() ==> r.1 == (NextStep::Read {
                path: s.files[s.file + 1],
            })
            &&& types.len() == 0 && s.file + 1 == s.files.len() ==> r.1 == NextStep::Done
        }),
{
}

/// A session that is there already is skipped; one that is not is inserted under its
/// hash.
pub proof fn law_only_what_is_not_there_is_inserted(s: ImportState)
    requires
        0 <= s.session < s.types.len(),
    ensures
        s.known().0.skipped == s.skipped + 1,
        s.known().0.new_imported == s.new_imported,
        s.known().0.errors == s.errors,
        s.unknown().0 == s,
        s.unknown().1 == (NextStep::Insert {
            hash: session_hash_of(s.content, s.types[s.session]),
            session: s.session,
        }),
        s.inserted().0.new_imported == s.new_imported + 1,
        s.inserted().0.skipped == s.skipped,
        s.inserted().0.errors == s.errors,
{
}

/// A session that could not be inserted is an error, with the path of its file, its
/// type and what went wrong, and counts as neither imported nor skipped.
pub proof fn law_a_bad_session_is_an_error(s: ImportState, error: Seq<char>)
    requires
        0 <= s.file < s.files.len(),
        0 <= s.session < s.types.len(),
    ensures
        ({
            let a = s.savepoint_failed(error).0;
            let b = s.insert_failed(error).0;
            let head = s.files[s.file] + " ["@ + s.types[s.session] + "]: "@;
            &&& a.errors == s.errors.push(head + "savepoint error — "@ + error)
            &&& b.errors == s.errors.push(head + "insert error — "@ + error)
            &&& a.new_imported == s.new_imported && a.skipped == s.skipped
            &&& b.new_imported == s.new_imported && b.skipped == s.skipped
        }),
{
}

/// After a session, whatever became of it, the next one of the file is looked up, and
/// after the last one the next file is read.
pub proof fn law_sessions_follow_each_other(s: ImportState, error: Seq<char>)
    requires
        0 <= s.file < s.files.len(),
        0 <= s.session < s.types.len(),
    ensures
        ({
            let next = if s.session + 1 < s.types.len() {
                NextStep::LookUp { hash: session_hash_of(s.content, s.types[s.session + 1]) }
            } else if s.file + 1 < s.files.len() {
                NextStep::Read { path: s.files[s.file + 1] }
            } else {
                NextStep::Done
            };
            &&& s.known().1 == next
            &&& s.inserted().1 == next
            &&& s.savepoint_failed(error).1 == next
            &&& s.insert_failed(error).1 == next
        }),
{
}

/// What is owed for a file: one result for each of its sessions, and one where it has
/// none or could not be read or parsed.
pub proof fn law_each_session_is_owed_a_result(
    content: Seq<u8>,
    types: Seq<Seq<char>>,
    error: Seq<char>,
    files: Seq<Seq<char>>,
    disk: spec_fn(Seq<char>) -> FileContent,
    from: int,
)
    ensures
        results_of(FileContent::Unreadable(error)) == 1,
        results_of(FileContent::Unparsable(error)) == 1,
        types.len() > 0 ==> results_of(FileContent::Sessions(content, types)) == types.len(),
        types.len() == 0 ==> results_of(FileContent::Sessions(content, types)) == 1,
        0 <= from < files.len() ==> results_owed(files, disk, from) == results_of(
            disk(files[from]),
        ) + results_owed(files, disk, from + 1),
        from >= files.len() ==> results_owed(files, disk, from) == 0,
{
}

/// The digits of a byte stand together, the higher half first.
pub proof fn law_each_byte_is_two_hex_digits(bytes: Seq<u8>, i: int)
    requires
        0 <= i < bytes.len(),
    ensures
        hex_of(bytes).len() == 2 * bytes.len(),
        hex_of(bytes)[2 * i] == hex_digit(bytes[i] as int / 16),
        hex_of(bytes)[2 * i + 1] == hex_digit(bytes[i] as int % 16),
{
}

/// Two sessions have the same hash where they are of the same type and of files with the
/// same content; the hash of a session is that of the content with its type behind it.
pub proof fn law_a_session_is_told_by_its_hash(
    content: Vec<u8>,
    session_type: &str,
    joined: Vec<u8>,
    of_session: String,
    of_joined: String,
)
    requires
        call_ensures(session_hash, (&content, session_type), of_session),
        call_ensures(compute_file_hash, (&joined,), of_joined),
        joined@ == content@ + vstd::utf8::encode_utf8(session_type@),
    ensures
        of_session@ == of_joined@,
        of_session@.len() == 64,
{
}

/// An import reads its first file first, with nothing done; without files it is over.
pub proof fn law_an_import_starts_with_its_first_file(
    files: Vec<String>,
    r: (Import, ImportStep),
)
    requires
        call_ensures(import_new_sessions, (files,), r),
    ensures
        files@.len() > 0 ==> r.1 is Read && r.1->Read_path@ == files@[0]@,
        files@.len() == 0 ==> r.1 is Done,
        r.0@.total_files == files@.len(),
        r.0@.new_imported == 0,
        r.0@.skipped == 0,
        r.0@.errors.len() == 0,
{
    law_an_import_begins_at_its_first_file(text::views(files@));
    if files@.len() > 0 {
        assert(text::views(files@)[0] == files@[0]@);
    }
}

/// A file that cannot be read is an error with its path, and the next file is read.
pub proof fn law_a_file_that_cannot_be_read_is_named(
    import: &mut Import,
    error: &str,
    step: ImportStep,
)
    requires
        call_ensures(Import::unreadable, (import, error), step),
        0 <= old(import)@.file < old(import)@.files.len(),
    ensures
        final(import)@.errors == old(import)@.errors.push(
            old(import)@.files[old(import)@.file] + ": read error — "@ + error@,
        ),
        final(import)@.new_imported == old(import)@.new_imported,
        final(import)@.skipped == old(import)@.skipped,
        final(import)@.file == old(import)@.file + 1,
        old(import)@.file + 1 < old(import)@.files.len() ==> step is Read && step->Read_path@
            == old(import)@.files[old(import)@.file + 1],
        old(import)@.file + 1 == old(import)@.files.len() ==> step is Done,
{
    law_a_bad_file_is_an_error(old(import)@, error@);
}

/// A file that cannot be parsed is an error with its path, and the next file is read.
pub proof fn law_a_file_that_cannot_be_parsed_is_named(
    import: &mut Import,
    error: &str,
    step: ImportStep,
)
    requires
        call_ensures(Import::unparsable, (import, error), step),
        0 <= old(import)@.file < old(import)@.files.len(),
    ensures
        final(import)@.errors == old(import)@.errors.push(
            old(import)@.files[old(import)@.file] + ": parse error — "@ + error@,
        ),
        final(import)@.new_imported == old(import)@.new_imported,
        final(import)@.skipped == old(import)@.skipped,
        final(import)@.file == old(import)@.file + 1,
        old(import)@.file + 1 < old(import)@.files.len() ==> step is Read && step->Read_path@
            == old(import)@.files[old(import)@.file + 1],
        old(import)@.file + 1 == old(import)@.files.len() ==> step is Done,
{
    law_a_bad_file_is_an_error(old(import)@, error@);
}

/// A file without sessions is passed over; of one with sessions the first is looked up
/// by its hash.
pub proof fn law_a_file_is_taken_session_by_session(
    import: &mut Import,
    content: Vec<u8>,
    types: Vec<String>,
    step: ImportStep,
)
    requires
        call_ensures(Import::parsed, (import, content, types), step),
        0 <= old(import)@.file < old(import)@.files.len(),
    ensures
        types@.len() > 0 ==> step is LookUp && step->LookUp_hash@ == session_hash_of(
            content@,
            types@[0]@,
        ) && final(import)@.file == old(import)@.file && final(import)@.skipped == old(
            import)@.skipped,
        types@.len() == 0 ==> final(import)@.skipped == old(import)@.skipped + 1 && final(
            import)@.file == old(import)@.file + 1,
        final(import)@.errors == old(import)@.errors,
        final(import)@.new_imported == old(import)@.new_imported,
{
    law_a_parsed_file_begins_with_its_first_session(
        old(import)@,
        content@,
        text::views(types@),
    );
    if types@.len() > 0 {
        assert(text::views(types@)[0] == types@[0]@);
    }
}

/// A session that is there already is skipped, and one that is not is inserted under
/// the hash that was looked up.
pub proof fn law_a_session_is_inserted_once(
    import: &mut Import,
    same: Import,
    skipped: ImportStep,
    insert: ImportStep,
)
    requires
        call_ensures(Import::known, (import,), skipped),
        call_ensures(Import::unknown, (&same,), insert),
        same@ == old(import)@,
        0 <= old(import)@.file < old(import)@.files.len(),
        0 <= old(import)@.session < old(import)@.types.len(),
    ensures
        final(import)@.skipped == old(import)@.skipped + 1,
        final(import)@.new_imported == old(import)@.new_imported,
        final(import)@.errors == old(import)@.errors,
        insert is Insert,
        insert->Insert_hash@ == session_hash_of(
            same@.content,
            same@.types[same@.session],
        ),
        insert->Insert_session == same@.session,
        !(skipped is Insert),
{
    law_only_what_is_not_there_is_inserted(old(import)@);
    law_sessions_follow_each_other(old(import)@, Seq::empty());
}

/// A session that was inserted is counted as new.
pub proof fn law_an_inserted_session_is_new(import: &mut Import, step: ImportStep)
    requires
        call_ensures(Import::inserted, (import,), step),
        0 <= old(import)@.file < old(import)@.files.len(),
        0 <= old(import)@.session < old(import)@.types.len(),
    ensures
        final(import)@.new_imported == old(import)@.new_imported + 1,
        final(import)@.skipped == old(import)@.skipped,
        final(import)@.errors == old(import)@.errors,
        old(import)@.session + 1 < old(import)@.types.len() ==> step is LookUp
            && step->LookUp_hash@ == session_hash_of(
            old(import)@.content,
            old(import)@.types[old(import)@.session + 1],
        ),
        old(import)@.session + 1 == old(import)@.types.len() && old(import)@.file + 1 < old(
            import)@.files.len() ==> step is Read && step->Read_path@ == old(import)@.files[old(
            import)@.file + 1],
        old(import)@.session + 1 == old(import)@.types.len() && old(import)@.file + 1 == old(
            import)@.files.len() ==> step is Done,
{
    law_only_what_is_not_there_is_inserted(old(import)@);
    law_sessions_follow_each_other(old(import)@, Seq::empty());
}

/// A session that could not be inserted is an error with its path and its type.
pub proof fn law_a_session_that_failed_is_named(
    import: &mut Import,
    other: &mut Import,
    error: &str,
    step: ImportStep,
    next: ImportStep,
)
    requires
        call_ensures(Import::insert_failed, (import, error), step),
        call_ensures(Import::savepoint_failed, (other, error), next),
        0 <= old(import)@.file < old(import)@.files.len(),
        0 <= old(import)@.session < old(import)@.types.len(),
        0 <= old(other)@.file < old(other)@.files.len(),
        0 <= old(other)@.session < old(other)@.types.len(),
    ensures
        final(import)@.errors == old(import)@.errors.push(
            old(import)@.files[old(import)@.file] + " ["@ + old(import)@.types[old(
                import)@.session] + "]: "@ + "insert error — "@ + error@,
        ),
        final(import)@.new_imported == old(import)@.new_imported,
        final(import)@.skipped == old(import)@.skipped,
        final(other)@.errors == old(other)@.errors.push(
            old(other)@.files[old(other)@.file] + " ["@ + old(other)@.types[old(other)@.session]
                + "]: "@ + "savepoint error — "@ + error@,
        ),
        final(other)@.new_imported == old(other)@.new_imported,
        final(other)@.skipped == old(other)@.skipped,
{
    law_a_bad_session_is_an_error(old(import)@, error@);
    law_a_bad_session_is_an_error(old(other)@, error@);
}

/// The result of an import is what it counted, with its errors in order.
pub proof fn law_an_import_tells_what_it_did(import: Import, r: ImportResult, i: int)
    requires
        call_ensures(Import::into_result, (import,), r),
    ensures
        r.total_files == import@.total_files,
        r.new_imported == import@.new_imported,
        r.skipped == import@.skipped,
        r.errors@.len() == import@.errors.len(),
        0 <= i < r.errors@.len() ==> r.errors@[i]@ == import@.errors[i],
{
    assert(text::views(r.errors@).len() == r.errors@.len());
    if 0 <= i < r.errors@.len() {
        assert(text::views(r.errors@)[i] == r.errors@[i]@);
    }
}

} // verus!
