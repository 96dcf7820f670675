//! The voices of the race engineer.
//!
//! Ids of voices come from clients that nobody has authenticated, and a path is
//! made of them. An id that is not in the catalog is therefore never made into a
//! path.

use vstd::prelude::*;

use crate::text;

verus! {

/// A voice of the catalog.
#[derive(Debug)]
pub struct VoiceDef {
    pub id: String,
    pub model_url: String,
    pub config_url: String,
}

/// The files of a voice on this machine.
#[derive(Debug)]
pub struct VoiceFiles {
    pub model: String,
    pub model_exists: bool,
    pub config: String,
    pub config_exists: bool,
}

/// Whether a voice is installed, and where.
#[derive(Debug)]
pub struct VoiceInstallStatus {
    pub voice_id: String,
    pub installed: bool,
    pub model_path: Option<String>,
    pub config_path: Option<String>,
}

/// Whether an id names a voice of the catalog.
pub open spec fn in_catalog(catalog: Seq<VoiceDef>, id: Seq<char>) -> bool {
    exists|i: int| 0 <= i < catalog.len() && (#[trigger] catalog[i]).id@ == id
}

/// The index of the voice with this id, or the size of the catalog.
pub open spec fn voice_index(catalog: Seq<VoiceDef>, id: Seq<char>) -> int
    decreases catalog.len(),
{
    if catalog.len() == 0 || catalog[0].id@ == id {
        0
    } else {
        1 + voice_index(catalog.skip(1), id)
    }
}

/// The index of the voice with this id, or the size of the catalog.
fn find_voice(catalog: &Vec<VoiceDef>, id: &str) -> (k: usize)
    ensures
        k <= catalog@.len(),
        k < catalog@.len() ==> catalog@[k as int].id@ == id@,
        k < catalog@.len() <==> in_catalog(catalog@, id@),
        k == voice_index(catalog@, id@),
{
    let mut k: usize = 0;
    proof {
        assert(catalog@.skip(0) == catalog@);
    }
    while k < catalog.len()
        invariant
            k <= catalog@.len(),
            forall|i: int| 0 <= i < k ==> (#[trigger] catalog@[i]).id@ != id@,
            voice_index(catalog@, id@) == k + voice_index(catalog@.skip(k as int), id@),
        decreases catalog@.len() - k,
    {
        proof {
            assert(catalog@.skip(k as int)[0] == catalog@[k as int]);
            assert(catalog@.skip(k as int).skip(1) == catalog@.skip(k + 1));
        }
        if text::same(&catalog[k].id, id) {
            return k;
        }
        k += 1;
    }
    k
}

/// Whether an id names a voice of the catalog.
pub fn is_known(catalog: &Vec<VoiceDef>, voice_id: &str) -> (r: bool)
    ensures
        r == in_catalog(catalog@, voice_id@),
{
    find_voice(catalog, voice_id) < catalog.len()
}

/// Whether a voice is installed, where both of its files may or may not exist. An
/// unknown voice never is.
pub fn is_installed(
    catalog: &Vec<VoiceDef>,
    voice_id: &str,
    model_exists: bool,
    config_exists: bool,
) -> (r: bool)
    ensures
        r == (in_catalog(catalog@, voice_id@) && model_exists && config_exists),
{
    is_known(catalog, voice_id) && model_exists && config_exists
}

/// Whether `status` says what the files say of a voice.
pub open spec fn reports(status: VoiceInstallStatus, voice: VoiceDef, files: VoiceFiles) -> bool {
    let installed = files.model_exists && files.config_exists;
    &&& status.voice_id@ == voice.id@
    &&& status.installed == installed
    &&& match status.model_path {
        Some(p) => installed && p@ == files.model@,
        None => !installed,
    }
    &&& match status.config_path {
        Some(p) => installed && p@ == files.config@,
        None => !installed,
    }
}

/// The voices of the catalog, in order, with what the files of each say.
pub fn list_voices(catalog: &Vec<VoiceDef>, files: &Vec<VoiceFiles>) -> (list: Vec<
    VoiceInstallStatus,
>)
    requires
        catalog@.len() == files@.len(),
    ensures
        list@.len() == catalog@.len(),
        forall|i: int|
            0 <= i < list@.len() ==> reports(#[trigger] list@[i], catalog@[i], files@[i]),
{
    let mut list: Vec<VoiceInstallStatus> = Vec::new();
    let mut i: usize = 0;
    while i < catalog.len()
        invariant
            i <= catalog@.len(),
            catalog@.len() == files@.len(),
            list@.len() == i,
            forall|j: int|
                0 <= j < list@.len() ==> reports(#[trigger] list@[j], catalog@[j], files@[j]),
        decreases catalog@.len() - i,
    {
        let installed = files[i].model_exists && files[i].config_exists;
        let (model_path, config_path) = if installed {
            (Some(files[i].model.clone()), Some(files[i].config.clone()))
        } else {
            (None, None)
        };
        list.push(
            VoiceInstallStatus {
                voice_id: catalog[i].id.clone(),
                installed,
                model_path,
                config_path,
            },
        );
        i += 1;
    }
    list
}

// ---------------------------------------------------------------------------
// Installing
// ---------------------------------------------------------------------------

/// What to download for a voice, and under which names until it has been checked.
#[derive(Debug)]
pub struct VoiceDownload {
    pub model_url: String,
    pub config_url: String,
    pub model_tmp: String,
    pub config_tmp: String,
}

/// Whether `error` says that the voice is unknown.
pub open spec fn says_unknown(error: Seq<char>, voice_id: Seq<char>) -> bool {
    error == "Unknown voice: "@ + voice_id
}

/// The refusal of a voice that is not in the catalog.
fn unknown_voice(voice_id: &str) -> (error: String)
    ensures
        says_unknown(error@, voice_id@),
{
    let mut error: String = "Unknown voice: ".to_owned();
    error.append(voice_id);
    error
}

/// Whether a download is that of a voice of the catalog.
pub open spec fn downloads(
    d: VoiceDownload,
    catalog: Seq<VoiceDef>,
    voice_id: Seq<char>,
) -> bool {
    let k = voice_index(catalog, voice_id);
    &&& d.model_url@ == catalog[k].model_url@
    &&& d.config_url@ == catalog[k].config_url@
    &&& d.model_tmp@ == voice_id + ".onnx.tmp"@
    &&& d.config_tmp@ == voice_id + ".onnx.json.tmp"@
}

/// What to download to install a voice.
pub fn install_voice(catalog: &Vec<VoiceDef>, voice_id: &str) -> (r: Result<
    VoiceDownload,
    String,
>)
    ensures
        match r {
            Ok(d) => in_catalog(catalog@, voice_id@) && downloads(d, catalog@, voice_id@),
            Err(e) => !in_catalog(catalog@, voice_id@) && says_unknown(e@, voice_id@),
        },
{
    let k = find_voice(catalog, voice_id);
    if k == catalog.len() {
        return Err(unknown_voice(voice_id));
    }
    let mut model_tmp: String = voice_id.to_owned();
    model_tmp.append(".onnx.tmp");
    let mut config_tmp: String = voice_id.to_owned();
    config_tmp.append(".onnx.json.tmp");
    let d = VoiceDownload {
        model_url: catalog[k].model_url.clone(),
        config_url: catalog[k].config_url.clone(),
        model_tmp,
        config_tmp,
    };
    Ok(d)
}

/// A model smaller than this is not one.
pub const MIN_MODEL_SIZE: u64 = 10_485_760;

/// A configuration larger than this is not one.
pub const MAX_CONFIG_SIZE: u64 = 1_048_576;

/// Why a download of these sizes is refused; none if it is not.
pub open spec fn refusal(model_size: u64, config_size: u64) -> Option<Seq<char>> {
    if model_size < MIN_MODEL_SIZE {
        Some(
            "Voice model too small ("@ + text::decimal(model_size as int)
                + " bytes) — likely a 404 page"@,
        )
    } else if config_size > MAX_CONFIG_SIZE {
        Some(
            "Voice config too large ("@ + text::decimal(config_size as int)
                + " bytes) — unexpected content"@,
        )
    } else {
        None
    }
}

/// The error of a result, as text.
pub open spec fn error_of(r: Result<(), String>) -> Option<Seq<char>> {
    match r {
        Ok(_) => None,
        Err(e) => Some(e@),
    }
}

/// Checks the sizes of what was downloaded.
pub fn check_download(model_size: u64, config_size: u64) -> (r: Result<(), String>)
    ensures
        error_of(r) == refusal(model_size, config_size),
{
    if model_size < MIN_MODEL_SIZE {
        let mut e: String = "Voice model too small (".to_owned();
        e.append(text::decimal_text(model_size).as_str());
        e.append(" bytes) — likely a 404 page");
        return Err(e);
    }
    if config_size > MAX_CONFIG_SIZE {
        let mut e: String = "Voice config too large (".to_owned();
        e.append(text::decimal_text(config_size).as_str());
        e.append(" bytes) — unexpected content");
        return Err(e);
    }
    Ok(())
}

/// Which of the two files of a voice.
#[derive(Debug, Clone, Copy, PartialEq, Eq, Structural)]
pub enum VoicePart {
    Model,
    Config,
}

/// What is done with a file that was downloaded.
#[derive(Debug)]
pub enum FileStep {
    /// Remove the file of this name.
    Discard { tmp: String },
    /// Make the file of this name that part of the installed voice.
    Install { tmp: String, part: VoicePart },
}

/// The folder of the voices, as far as one voice is concerned: what was downloaded,
/// by file name, and what is installed.
pub struct VoiceFolder<C> {
    pub tmps: Map<Seq<char>, C>,
    pub model: Option<C>,
    pub config: Option<C>,
}

impl<C> VoiceFolder<C> {
    /// Whether the voice is installed: both of its files are there.
    pub open spec fn has_voice(self) -> bool {
        self.model is Some && self.config is Some
    }

    /// After one step. A file that is not there is neither removed nor installed.
    pub open spec fn after(self, step: FileStep) -> Self {
        match step {
            FileStep::Discard { tmp } => VoiceFolder { tmps: self.tmps.remove(tmp@), ..self },
            FileStep::Install { tmp, part } => if !self.tmps.contains_key(tmp@) {
                self
            } else {
                match part {
                    VoicePart::Model => VoiceFolder {
                        tmps: self.tmps.remove(tmp@),
                        model: Some(self.tmps[tmp@]),
                        ..self
                    },
                    VoicePart::Config => VoiceFolder {
                        tmps: self.tmps.remove(tmp@),
                        config: Some(self.tmps[tmp@]),
                        ..self
                    },
                }
            },
        }
    }

    /// After one step and then another.
    pub open spec fn after_both(self, steps: Seq<FileStep>) -> Self {
        self.after(steps[0]).after(steps[1])
    }
}

/// How an installation ends: what is done with the two files, and what is told.
#[derive(Debug)]
pub struct InstallEnd {
    pub steps: Vec<FileStep>,
    pub outcome: Result<(), String>,
}

/// Whether the steps discard both files of a download.
pub open spec fn discards(steps: Seq<FileStep>, d: VoiceDownload) -> bool {
    &&& steps.len() == 2
    &&& steps[0] matches FileStep::Discard { tmp } && tmp@ == d.model_tmp@
    &&& steps[1] matches FileStep::Discard { tmp } && tmp@ == d.config_tmp@
}

/// Whether the steps install both files of a download, the model first.
pub open spec fn installs(steps: Seq<FileStep>, d: VoiceDownload) -> bool {
    &&& steps.len() == 2
    &&& steps[0] matches FileStep::Install { tmp, part } && tmp@ == d.model_tmp@ && part
        == VoicePart::Model
    &&& steps[1] matches FileStep::Install { tmp, part } && tmp@ == d.config_tmp@ && part
        == VoicePart::Config
}

/// Where an installation failed.
#[derive(Debug, Clone, Copy, PartialEq, Eq, Structural)]
pub enum InstallFailure {
    /// A file could not be downloaded.
    Download,
    /// The model could not be put in its place.
    Model,
    /// The configuration could not be put in its place.
    Config,
}

impl VoiceDownload {
    /// The steps that discard both files.
    fn discard_steps(&self) -> (steps: Vec<FileStep>)
        ensures
            discards(steps@, *self),
    {
        let mut steps: Vec<FileStep> = Vec::new();
        steps.push(FileStep::Discard { tmp: self.model_tmp.clone() });
        steps.push(FileStep::Discard { tmp: self.config_tmp.clone() });
        steps
    }

    /// What becomes of the two files once they have been downloaded, by their sizes:
    /// what cannot be a voice is discarded and refused, everything else becomes the
    /// installed voice.
    pub fn finish(&self, model_size: u64, config_size: u64) -> (end: InstallEnd)
        ensures
            error_of(end.outcome) == refusal(model_size, config_size),
            end.outcome is Err ==> discards(end.steps@, *self),
            end.outcome is Ok ==> installs(end.steps@, *self),
    {
        let outcome = check_download(model_size, config_size);
        let steps = match &outcome {
            Err(_) => self.discard_steps(),
            Ok(_) => {
                let mut steps: Vec<FileStep> = Vec::new();
                steps.push(
                    FileStep::Install { tmp: self.model_tmp.clone(), part: VoicePart::Model },
                );
                steps.push(
                    FileStep::Install { tmp: self.config_tmp.clone(), part: VoicePart::Config },
                );
                steps
            },
        };
        InstallEnd { steps, outcome }
    }

    /// What becomes of the two files where the installation failed before its end.
    /// Once the model is in its place nothing is discarded any more.
    pub fn abandon(&self, failure: InstallFailure) -> (steps: Vec<FileStep>)
        ensures
            failure is Config ==> steps@.len() == 0,
            !(failure is Config) ==> discards(steps@, *self),
    {
        match failure {
            InstallFailure::Download => self.discard_steps(),
            InstallFailure::Model => self.discard_steps(),
            InstallFailure::Config => Vec::new(),
        }
    }
}

/// The two files of a download have different names.
proof fn lemma_different_names(d: VoiceDownload, catalog: Seq<VoiceDef>, voice_id: Seq<char>)
    requires
        downloads(d, catalog, voice_id),
    ensures
        d.model_tmp@ != d.config_tmp@,
{
    reveal_strlit(".onnx.tmp");
    reveal_strlit(".onnx.json.tmp");
    assert(d.model_tmp@.len() != d.config_tmp@.len());
}

/// A download that is refused leaves the installed voice as it was, and none of its
/// own files.
pub proof fn law_a_refused_download_leaves_the_voice_as_it_was<C>(
    folder: VoiceFolder<C>,
    d: VoiceDownload,
    steps: Seq<FileStep>,
)
    requires
        discards(steps, d),
    ensures
        ({
            let end = folder.after_both(steps);
            &&& end.model == folder.model
            &&& end.config == folder.config
            &&& !end.tmps.contains_key(d.model_tmp@)
            &&& !end.tmps.contains_key(d.config_tmp@)
        }),
{
}

/// A download that is accepted becomes the installed voice: what was downloaded is
/// what is installed, and none of its own files is left.
pub proof fn law_an_accepted_download_is_installed<C>(
    folder: VoiceFolder<C>,
    d: VoiceDownload,
    steps: Seq<FileStep>,
    catalog: Seq<VoiceDef>,
    voice_id: Seq<char>,
)
    requires
        downloads(d, catalog, voice_id),
        installs(steps, d),
        folder.tmps.contains_key(d.model_tmp@),
        folder.tmps.contains_key(d.config_tmp@),
    ensures
        ({
            let end = folder.after_both(steps);
            &&& end.has_voice()
            &&& end.model == Some(folder.tmps[d.model_tmp@])
            &&& end.config == Some(folder.tmps[d.config_tmp@])
            &&& !end.tmps.contains_key(d.model_tmp@)
            &&& !end.tmps.contains_key(d.config_tmp@)
        }),
{
    lemma_different_names(d, catalog, voice_id);
}

// ---------------------------------------------------------------------------
// Uninstalling
// ---------------------------------------------------------------------------

/// Which files of a voice to remove.
#[derive(Debug, Clone, Copy, PartialEq, Eq, Structural)]
pub struct VoiceRemoval {
    pub model: bool,
    pub config: bool,
}

/// Which files to remove to uninstall a voice.
pub fn uninstall_voice(
    catalog: &Vec<VoiceDef>,
    voice_id: &str,
    model_exists: bool,
    config_exists: bool,
) -> (r: Result<VoiceRemoval, String>)
    ensures
        match r {
            Ok(files) => in_catalog(catalog@, voice_id@) && files == (VoiceRemoval {
                model: model_exists,
                config: config_exists,
            }),
            Err(e) => !in_catalog(catalog@, voice_id@) && says_unknown(e@, voice_id@),
        },
{
    if !is_known(catalog, voice_id) {
        return Err(unknown_voice(voice_id));
    }
    Ok(VoiceRemoval { model: model_exists, config: config_exists })
}

/// Whether a text names something outside the folder that it is joined to.
pub open spec fn leads_elsewhere(id: Seq<char>) -> bool {
    id.contains('/') || id.contains('\\')
}

/// Where no id of the catalog leads elsewhere, no id that is accepted does, and so
/// neither does a file that is downloaded for it.
pub proof fn law_no_path_leads_out_of_the_voices_folder(
    catalog: Seq<VoiceDef>,
    voice_id: Seq<char>,
    d: VoiceDownload,
)
    requires
        forall|i: int|
            0 <= i < catalog.len() ==> !leads_elsewhere((#[trigger] catalog[i]).id@),
        in_catalog(catalog, voice_id),
        downloads(d, catalog, voice_id),
    ensures
        !leads_elsewhere(voice_id),
        !leads_elsewhere(d.model_tmp@),
        !leads_elsewhere(d.config_tmp@),
{
    reveal_strlit(".onnx.tmp");
    reveal_strlit(".onnx.json.tmp");
    let k = choose|k: int| 0 <= k < catalog.len() && (#[trigger] catalog[k]).id@ == voice_id;
    assert(!leads_elsewhere(catalog[k].id@));
    lemma_joined(voice_id, ".onnx.tmp"@, '/');
    lemma_joined(voice_id, ".onnx.tmp"@, '\\');
    lemma_joined(voice_id, ".onnx.json.tmp"@, '/');
    lemma_joined(voice_id, ".onnx.json.tmp"@, '\\');
}

/// A character of a joined text is from one of its parts.
proof fn lemma_joined(a: Seq<char>, b: Seq<char>, c: char)
    ensures
        (a + b).contains(c) ==> a.contains(c) || b.contains(c),
{
    if (a + b).contains(c) {
        let i = choose|i: int| 0 <= i < (a + b).len() && (a + b)[i] == c;
        if i < a.len() {
            assert(a[i] == c);
        } else {
            assert(b[i - a.len()] == c);
        }
    }
}

// ---------------------------------------------------------------------------
// Laws of the operations
// ---------------------------------------------------------------------------

proof fn lemma_voice_index(catalog: Seq<VoiceDef>, id: Seq<char>, k: int)
    requires
        0 <= k < catalog.len(),
        catalog[k].id@ == id,
        forall|j: int| 0 <= j < k ==> (#[trigger] catalog[j]).id@ != id,
    ensures
        voice_index(catalog, id) == k,
    decreases k,
{
    if k > 0 {
        assert(catalog[0].id@ != id);
        let rest = catalog.skip(1);
        assert(rest[k - 1] == catalog[k]);
        assert forall|j: int| 0 <= j < k - 1 implies (#[trigger] rest[j]).id@ != id by {
            assert(rest[j] == catalog[j + 1]);
        }
        lemma_voice_index(rest, id, k - 1);
    }
}

/// A voice is known where the catalog has its id.
pub proof fn law_a_voice_of_the_catalog_is_known(
    catalog: Vec<VoiceDef>,
    voice_id: &str,
    r: bool,
    k: int,
)
    requires
        call_ensures(is_known, (&catalog, voice_id), r),
        0 <= k < catalog@.len(),
    ensures
        catalog@[k].id@ == voice_id@ ==> r,
        r ==> exists|j: int| 0 <= j < catalog@.len() && (#[trigger] catalog@[j]).id@ == voice_id@,
{
}

/// A voice is installed where the catalog has it and both of its files are there.
pub proof fn law_a_voice_needs_both_files(
    catalog: Vec<VoiceDef>,
    voice_id: &str,
    model_exists: bool,
    config_exists: bool,
    r: bool,
)
    requires
        call_ensures(is_installed, (&catalog, voice_id, model_exists, config_exists), r),
    ensures
        r <==> model_exists && config_exists && exists|j: int|
            0 <= j < catalog@.len() && (#[trigger] catalog@[j]).id@ == voice_id@,
{
}

/// Every voice of the catalog is listed in its place. It is installed, and its two
/// paths are given, where both of its files are there, and only there.
pub proof fn law_every_voice_is_listed(
    catalog: Vec<VoiceDef>,
    files: Vec<VoiceFiles>,
    list: Vec<VoiceInstallStatus>,
    i: int,
)
    requires
        catalog@.len() == files@.len(),
        call_ensures(list_voices, (&catalog, &files), list),
        0 <= i < catalog@.len(),
    ensures
        list@.len() == catalog@.len(),
        list@[i].voice_id@ == catalog@[i].id@,
        list@[i].installed <==> files@[i].model_exists && files@[i].config_exists,
        list@[i].model_path is Some <==> list@[i].installed,
        list@[i].config_path is Some <==> list@[i].installed,
        list@[i].installed ==> list@[i].model_path->Some_0@ == files@[i].model@,
        list@[i].installed ==> list@[i].config_path->Some_0@ == files@[i].config@,
{
    assert(reports(list@[i], catalog@[i], files@[i]));
}

/// A voice of the catalog is downloaded from its own two addresses, to two files that
/// bear its id.
pub proof fn law_a_voice_comes_from_its_own_addresses(
    catalog: Vec<VoiceDef>,
    voice_id: &str,
    r: Result<VoiceDownload, String>,
    k: int,
)
    requires
        call_ensures(install_voice, (&catalog, voice_id), r),
        0 <= k < catalog@.len(),
        catalog@[k].id@ == voice_id@,
        forall|j: int| 0 <= j < k ==> (#[trigger] catalog@[j]).id@ != voice_id@,
    ensures
        r is Ok,
        r->Ok_0.model_url@ == catalog@[k].model_url@,
        r->Ok_0.config_url@ == catalog@[k].config_url@,
        r->Ok_0.model_tmp@ == voice_id@ + ".onnx.tmp"@,
        r->Ok_0.config_tmp@ == voice_id@ + ".onnx.json.tmp"@,
{
    lemma_voice_index(catalog@, voice_id@, k);
}

/// A voice that the catalog does not have is neither downloaded nor removed, and is
/// refused by its id.
pub proof fn law_an_unknown_voice_is_refused(
    catalog: Vec<VoiceDef>,
    voice_id: &str,
    model_exists: bool,
    config_exists: bool,
    r: Result<VoiceDownload, String>,
    u: Result<VoiceRemoval, String>,
)
    requires
        call_ensures(install_voice, (&catalog, voice_id), r),
        call_ensures(uninstall_voice, (&catalog, voice_id, model_exists, config_exists), u),
        forall|j: int| 0 <= j < catalog@.len() ==> (#[trigger] catalog@[j]).id@ != voice_id@,
    ensures
        r is Err,
        r->Err_0@ == "Unknown voice: "@ + voice_id@,
        u is Err,
        u->Err_0@ == "Unknown voice: "@ + voice_id@,
{
}

/// Uninstalling a voice of the catalog removes each of its files that is there.
pub proof fn law_uninstalling_removes_what_is_there(
    catalog: Vec<VoiceDef>,
    voice_id: &str,
    model_exists: bool,
    config_exists: bool,
    u: Result<VoiceRemoval, String>,
    k: int,
)
    requires
        call_ensures(uninstall_voice, (&catalog, voice_id, model_exists, config_exists), u),
        0 <= k < catalog@.len(),
        catalog@[k].id@ == voice_id@,
    ensures
        u is Ok,
        u->Ok_0.model == model_exists,
        u->Ok_0.config == config_exists,
{
}

/// A download is refused where its model has less than ten mebibytes or its
/// configuration more than one, with the size that is wrong, and accepted otherwise.
pub proof fn law_a_download_is_judged_by_its_sizes(
    model_size: u64,
    config_size: u64,
    r: Result<(), String>,
)
    requires
        call_ensures(check_download, (model_size, config_size), r),
    ensures
        r is Ok <==> model_size >= 10 * 1024 * 1024 && config_size <= 1024 * 1024,
        model_size < 10 * 1024 * 1024 ==> r->Err_0@ == "Voice model too small ("@ + text::decimal(
            model_size as int,
        ) + " bytes) — likely a 404 page"@,
        model_size >= 10 * 1024 * 1024 && config_size > 1024 * 1024 ==> r->Err_0@
            == "Voice config too large ("@ + text::decimal(config_size as int)
            + " bytes) — unexpected content"@,
{
}

/// A finished download becomes the voice, the model first, where its sizes are those of
/// one; otherwise both of its files are discarded.
pub proof fn law_a_finished_download_is_kept_or_discarded(
    d: VoiceDownload,
    model_size: u64,
    config_size: u64,
    end: InstallEnd,
)
    requires
        call_ensures(VoiceDownload::finish, (&d, model_size, config_size), end),
    ensures
        end.outcome is Ok <==> model_size >= 10 * 1024 * 1024 && config_size <= 1024 * 1024,
        end.steps@.len() == 2,
        end.outcome is Ok ==> end.steps@[0] is Install && end.steps@[0]->Install_tmp@
            == d.model_tmp@ && end.steps@[0]->Install_part is Model && end.steps@[1] is Install
            && end.steps@[1]->Install_tmp@ == d.config_tmp@ && end.steps@[1]->Install_part
            is Config,
        end.outcome is Err ==> end.steps@[0] is Discard && end.steps@[0]->Discard_tmp@
            == d.model_tmp@ && end.steps@[1] is Discard && end.steps@[1]->Discard_tmp@
            == d.config_tmp@,
{
}

/// An installation that fails discards both files, unless the model is in its place
/// already.
pub proof fn law_a_failed_installation_is_cleaned_up(
    d: VoiceDownload,
    failure: InstallFailure,
    steps: Vec<FileStep>,
)
    requires
        call_ensures(VoiceDownload::abandon, (&d, failure), steps),
    ensures
        failure is Config ==> steps@.len() == 0,
        failure is Download || failure is Model ==> steps@.len() == 2 && steps@[0] is Discard
            && steps@[0]->Discard_tmp@ == d.model_tmp@ && steps@[1] is Discard
            && steps@[1]->Discard_tmp@ == d.config_tmp@,
{
}

/// A file that is discarded is gone, and one that is installed becomes the part it was
/// downloaded for; every other file stays as it was.
pub proof fn law_a_step_touches_one_file<C>(
    folder: VoiceFolder<C>,
    step: FileStep,
    tmp: Seq<char>,
    other: Seq<char>,
)
    requires
        tmp != other,
        step is Discard ==> step->Discard_tmp@ == tmp,
        step is Install ==> step->Install_tmp@ == tmp,
    ensures
        !folder.after(step).tmps.contains_key(tmp),
        folder.after(step).tmps.contains_key(other) <==> folder.tmps.contains_key(other),
        folder.tmps.contains_key(other) ==> folder.after(step).tmps[other] == folder.tmps[other],
        step is Discard ==> folder.after(step).model == folder.model && folder.after(step).config
            == folder.config,
        step is Install && folder.tmps.contains_key(tmp) && step->Install_part is Model
            ==> folder.after(step).model == Some(folder.tmps[tmp]) && folder.after(step).config
            == folder.config,
        step is Install && folder.tmps.contains_key(tmp) && step->Install_part is Config
            ==> folder.after(step).config == Some(folder.tmps[tmp]) && folder.after(step).model
            == folder.model,
        !folder.tmps.contains_key(tmp) ==> folder.after(step).model == folder.model && folder.after(
            step,
        ).config == folder.config,
{
}

} // verus!
