//! Where a session is kept, which models and devices it uses, and what is done
//! after it.

use vstd::prelude::*;

use crate::paths::{join_path, lemma_paths_differ, path_below};
use crate::stamp;
use crate::stamp::compact_text;
use crate::text;
use crate::text::optional_str;

verus! {

/// The file of the preferred batch model.
pub const TURBO_FILE: &'static str = "ggml-large-v3-turbo.bin";

/// The file of the other batch model.
pub const LARGE_FILE: &'static str = "ggml-large-v3.bin";

/// The directory of the model that finds the passages of speakers.
pub const SEGMENTATION_DIR: &'static str = "sherpa-onnx-pyannote-segmentation-3-0";

/// The file of the model that tells speakers apart.
pub const EMBEDDING_FILE: &'static str =
    "3dspeaker_speech_eres2net_base_sv_zh-cn_3dspeaker_16k.onnx";

/// The directory that holds all sessions.
pub open spec fn meetings_dir(home: Option<Seq<char>>) -> Seq<char> {
    let base = match home {
        Some(dir) => dir,
        None => "."@,
    };
    path_below(path_below(base, "Documents"@), "meetings"@)
}

/// The folder of a session: a path is taken as it is, a name is put below the
/// directory of all sessions, and where neither is given the folder is named by
/// the time.
pub open spec fn folder_of(
    output: Option<Seq<char>>,
    home: Option<Seq<char>>,
    time: Seq<char>,
) -> Seq<char> {
    match output {
        Some(name) => if name.contains('/') {
            name
        } else {
            path_below(meetings_dir(home), name)
        },
        None => path_below(meetings_dir(home), "meeting_"@ + time),
    }
}

/// Tells whether a string has this character.
fn has_char(s: &str, wanted: char) -> (b: bool)
    ensures
        b == s@.contains(wanted),
{
    let chars = text::chars_of(s);
    for i in 0..chars.len()
        invariant
            chars@ == s@,
            forall|j: int| 0 <= j < i ==> chars@[j] != wanted,
    {
        if chars[i] == wanted {
            assert(s@[i as int] == wanted);
            return true;
        }
    }
    false
}

/// The folder of a session; `time` names it where nothing else does.
pub fn session_folder(output: Option<&str>, home: Option<&str>, time: &str) -> (folder: String)
    ensures
        folder@ == folder_of(optional_str(output), optional_str(home), time@),
{
    let base = match home {
        Some(dir) => dir,
        None => ".",
    };
    let meetings = join_path(join_path(base, "Documents").as_str(), "meetings");
    match output {
        Some(name) => if has_char(name, '/') {
            name.to_owned()
        } else {
            join_path(meetings.as_str(), name)
        },
        None => {
            let mut name = "meeting_".to_owned();
            name.append(time);
            join_path(meetings.as_str(), name.as_str())
        },
    }
}

/// The folder of a session that starts `local_secs` seconds of local time after
/// 1970 began; `None` only when it would be named by a time that cannot be
/// written.
pub fn resolve_session_folder(output: Option<&str>, home: Option<&str>, local_secs: i64) -> (folder:
    Option<String>)
    ensures
        match folder {
            Some(path) => {
                &&& output is None ==> compact_text(local_secs) is Some
                &&& path@ == folder_of(
                    optional_str(output),
                    optional_str(home),
                    match compact_text(local_secs) {
                        Some(time) => time,
                        None => Seq::empty(),
                    },
                )
            },
            None => output is None && compact_text(local_secs) is None,
        },
{
    match stamp::compact(local_secs) {
        Some(time) => Some(session_folder(output, home, time.as_str())),
        None => if output.is_some() {
            Some(session_folder(output, home, String::new().as_str()))
        } else {
            None
        },
    }
}

/// The name of a session that starts `secs` seconds after the Unix epoch; `None`
/// when that time cannot be written.
pub fn session_id(secs: i64) -> (id: Option<String>)
    ensures
        match id {
            Some(name) => compact_text(secs) is Some && name@ == "mtg_"@ + compact_text(secs)->0,
            None => compact_text(secs) is None,
        },
{
    match stamp::compact(secs) {
        Some(time) => {
            let mut name = "mtg_".to_owned();
            name.append(time.as_str());
            Some(name)
        },
        None => None,
    }
}

/// The batch model (prefers Turbo, falls back to Large V3): its file and its
/// name.
pub fn find_whisper_model(models_dir: &str, turbo_exists: bool, large_exists: bool) -> (model:
    Option<(String, &'static str)>)
    ensures
        match model {
            Some((path, name)) => if turbo_exists {
                path@ == path_below(models_dir@, TURBO_FILE@) && name@ == "Whisper Turbo"@
            } else {
                &&& large_exists
                &&& path@ == path_below(models_dir@, LARGE_FILE@)
                &&& name@ == "Whisper Large V3"@
            },
            None => !turbo_exists && !large_exists,
        },
{
    if turbo_exists {
        return Some((join_path(models_dir, TURBO_FILE), "Whisper Turbo"));
    }
    if large_exists {
        return Some((join_path(models_dir, LARGE_FILE), "Whisper Large V3"));
    }
    None
}

/// The directory for models below the user's data directory.
pub open spec fn data_models_dir(data_dir: Seq<char>) -> Seq<char> {
    path_below(path_below(data_dir, "stt-cli"@), "models"@)
}

/// Where models are looked for.
pub open spec fn model_places(exe_dir: Option<Seq<char>>, data_dir: Option<Seq<char>>) -> Seq<
    Seq<char>,
> {
    seq![
        "models"@,
        match exe_dir {
            Some(dir) => path_below(dir, "models"@),
            None => Seq::empty(),
        },
        match data_dir {
            Some(dir) => data_models_dir(dir),
            None => Seq::empty(),
        },
    ]
}

/// Where models are looked for: here, beside the program, and in the user's
/// data directory.
pub fn models_candidates(exe_dir: Option<&str>, data_dir: Option<&str>) -> (dirs: Vec<String>)
    ensures
        text::views(dirs@) == model_places(optional_str(exe_dir), optional_str(data_dir)),
{
    let mut dirs: Vec<String> = Vec::new();
    dirs.push("models".to_owned());
    dirs.push(
        match exe_dir {
            Some(dir) => join_path(dir, "models"),
            None => String::new(),
        },
    );
    dirs.push(
        match data_dir {
            Some(dir) => join_path(join_path(dir, "stt-cli").as_str(), "models"),
            None => String::new(),
        },
    );
    assert(text::views(dirs@) =~= model_places(optional_str(exe_dir), optional_str(data_dir)));
    dirs
}

/// A directory that may hold models.
#[derive(Debug)]
pub struct ModelDir {
    /// Its path.
    pub path: String,
    /// Whether it holds the preferred batch model.
    pub has_turbo: bool,
    /// Whether it holds the other batch model.
    pub has_large: bool,
}

impl ModelDir {
    /// It holds a batch model.
    pub open spec fn has_model(self) -> bool {
        self.has_turbo || self.has_large
    }
}

/// The directory of the models: the first that holds a batch model, or else the
/// one in the user's data directory; `None` when there is no such directory.
pub fn choose_models_dir(candidates: &Vec<ModelDir>, data_dir: Option<&str>) -> (dir: Option<
    String,
>)
    ensures
        match dir {
            Some(path) => {
                ||| exists|i: int|
                    {
                        &&& 0 <= i < candidates@.len()
                        &&& (#[trigger] candidates@[i]).has_model()
                        &&& candidates@[i].path@ == path@
                        &&& forall|j: int| 0 <= j < i ==> !(#[trigger] candidates@[j]).has_model()
                    }
                ||| {
                    &&& forall|i: int|
                        0 <= i < candidates@.len() ==> !(#[trigger] candidates@[i]).has_model()
                    &&& data_dir is Some
                    &&& path@ == data_models_dir(data_dir->0@)
                }
            },
            None => {
                &&& forall|i: int|
                    0 <= i < candidates@.len() ==> !(#[trigger] candidates@[i]).has_model()
                &&& data_dir is None
            },
        },
{
    for i in 0..candidates.len()
        invariant
            forall|j: int| 0 <= j < i ==> !(#[trigger] candidates@[j]).has_model(),
    {
        if candidates[i].has_turbo || candidates[i].has_large {
            assert(candidates@[i as int].has_model());
            return Some(candidates[i].path.clone());
        }
    }
    match data_dir {
        Some(dir) => Some(join_path(join_path(dir, "stt-cli").as_str(), "models")),
        None => None,
    }
}

/// The file of the model that finds the passages of speakers.
pub open spec fn segmentation_path(models_dir: Seq<char>) -> Seq<char> {
    path_below(path_below(models_dir, SEGMENTATION_DIR@), "model.onnx"@)
}

/// The files of the models for speakers: the one that finds their passages, and
/// the one that tells them apart.
pub fn speaker_models(models_dir: &str) -> (files: (String, String))
    ensures
        files.0@ == segmentation_path(models_dir@),
        files.1@ == path_below(models_dir@, EMBEDDING_FILE@),
{
    (
        join_path(join_path(models_dir, SEGMENTATION_DIR).as_str(), "model.onnx"),
        join_path(models_dir, EMBEDDING_FILE),
    )
}

/// A model that has to be downloaded.
#[derive(Debug)]
pub struct Download {
    /// What is said before.
    pub announce: &'static str,
    /// Where it comes from.
    pub url: &'static str,
    /// Where it is put.
    pub target: String,
    /// What is said when it is there.
    pub ready: &'static str,
    /// What is said when the download fails.
    pub failure: &'static str,
    /// Whether it is an archive that is unpacked where it is put.
    pub archive: bool,
    /// What is said when it cannot be unpacked; nothing for a single file.
    pub extract_failure: &'static str,
}

/// What is known of a download.
pub struct DownloadPlan {
    /// Where it comes from.
    pub url: Seq<char>,
    /// Where it is put.
    pub target: Seq<char>,
    /// What is said before.
    pub announce: Seq<char>,
    /// What is said when it is there.
    pub ready: Seq<char>,
    /// What is said when the download fails.
    pub failure: Seq<char>,
    /// Whether it is an archive.
    pub archive: bool,
    /// What is said when it cannot be unpacked.
    pub extract_failure: Seq<char>,
}

impl View for Download {
    type V = DownloadPlan;

    open spec fn view(&self) -> DownloadPlan {
        DownloadPlan {
            url: self.url@,
            target: self.target@,
            announce: self.announce@,
            ready: self.ready@,
            failure: self.failure@,
            archive: self.archive,
            extract_failure: self.extract_failure@,
        }
    }
}

/// The download of the batch model.
pub open spec fn turbo_plan(models_dir: Seq<char>) -> DownloadPlan {
    DownloadPlan {
        url:
            "https://huggingface.co/ggerganov/whisper.cpp/resolve/main/ggml-large-v3-turbo.bin"@,
        target: path_below(models_dir, TURBO_FILE@),
        announce: "Downloading Whisper Turbo model (~809MB, Metal GPU accelerated)..."@,
        ready: "✓ Whisper Turbo model ready"@,
        failure: "Failed to download Whisper Turbo model"@,
        archive: false,
        extract_failure: ""@,
    }
}

/// The download of the model that finds the passages of speakers.
pub open spec fn segmentation_plan(models_dir: Seq<char>) -> DownloadPlan {
    DownloadPlan {
        url:
            "https://github.com/k2-fsa/sherpa-onnx/releases/download/speaker-segmentation-models/sherpa-onnx-pyannote-segmentation-3-0.tar.bz2"@,
        target: path_below(models_dir, "sherpa-onnx-pyannote-segmentation-3-0.tar.bz2"@),
        announce: "Downloading pyannote segmentation model (~5MB, speaker diarization)..."@,
        ready: "✓ sherpa-onnx-pyannote-segmentation-3-0 ready"@,
        failure: "Failed to download sherpa-onnx-pyannote-segmentation-3-0"@,
        archive: true,
        extract_failure: "Failed to extract sherpa-onnx-pyannote-segmentation-3-0"@,
    }
}

/// The download of the model that tells speakers apart.
pub open spec fn embedding_plan(models_dir: Seq<char>) -> DownloadPlan {
    DownloadPlan {
        url:
            "https://github.com/k2-fsa/sherpa-onnx/releases/download/speaker-recongition-models/3dspeaker_speech_eres2net_base_sv_zh-cn_3dspeaker_16k.onnx"@,
        target: path_below(models_dir, EMBEDDING_FILE@),
        announce: "Downloading 3dspeaker embedding model (~27MB, speaker diarization)..."@,
        ready: "✓ 3dspeaker embedding model ready"@,
        failure: "Failed to download 3dspeaker model"@,
        archive: false,
        extract_failure: ""@,
    }
}

/// At most one plan.
pub open spec fn unless(there: bool, plan: DownloadPlan) -> Seq<DownloadPlan> {
    if there {
        Seq::empty()
    } else {
        seq![plan]
    }
}

/// The downloads of the models that are not there yet, in order.
pub open spec fn missing_plan(
    models_dir: Seq<char>,
    turbo_exists: bool,
    segmentation_exists: bool,
    embedding_exists: bool,
) -> Seq<DownloadPlan> {
    unless(turbo_exists, turbo_plan(models_dir)) + unless(
        segmentation_exists,
        segmentation_plan(models_dir),
    ) + unless(embedding_exists, embedding_plan(models_dir))
}

/// What is known of downloads.
pub open spec fn plans(downloads: Seq<Download>) -> Seq<DownloadPlan> {
    downloads.map_values(|d: Download| d@)
}

/// The models that have to be downloaded: those that are not there yet.
pub fn missing_downloads(
    models_dir: &str,
    turbo_exists: bool,
    segmentation_exists: bool,
    embedding_exists: bool,
) -> (downloads: Vec<Download>)
    ensures
        plans(downloads@) == missing_plan(
            models_dir@,
            turbo_exists,
            segmentation_exists,
            embedding_exists,
        ),
{
    let mut downloads: Vec<Download> = Vec::new();
    if !turbo_exists {
        downloads.push(
            Download {
                announce: "Downloading Whisper Turbo model (~809MB, Metal GPU accelerated)...",
                url:
                    "https://huggingface.co/ggerganov/whisper.cpp/resolve/main/ggml-large-v3-turbo.bin",
                target: join_path(models_dir, TURBO_FILE),
                ready: "✓ Whisper Turbo model ready",
                failure: "Failed to download Whisper Turbo model",
                archive: false,
                extract_failure: "",
            },
        );
    }
    if !segmentation_exists {
        downloads.push(
            Download {
                announce: "Downloading pyannote segmentation model (~5MB, speaker diarization)...",
                url:
                    "https://github.com/k2-fsa/sherpa-onnx/releases/download/speaker-segmentation-models/sherpa-onnx-pyannote-segmentation-3-0.tar.bz2",
                target: join_path(models_dir, "sherpa-onnx-pyannote-segmentation-3-0.tar.bz2"),
                ready: "✓ sherpa-onnx-pyannote-segmentation-3-0 ready",
                failure: "Failed to download sherpa-onnx-pyannote-segmentation-3-0",
                archive: true,
                extract_failure: "Failed to extract sherpa-onnx-pyannote-segmentation-3-0",
            },
        );
    }
    if !embedding_exists {
        downloads.push(
            Download {
                announce: "Downloading 3dspeaker embedding model (~27MB, speaker diarization)...",
                url:
                    "https://github.com/k2-fsa/sherpa-onnx/releases/download/speaker-recongition-models/3dspeaker_speech_eres2net_base_sv_zh-cn_3dspeaker_16k.onnx",
                target: join_path(models_dir, EMBEDDING_FILE),
                ready: "✓ 3dspeaker embedding model ready",
                failure: "Failed to download 3dspeaker model",
                archive: false,
                extract_failure: "",
            },
        );
    }
    assert(plans(downloads@) =~= missing_plan(
        models_dir@,
        turbo_exists,
        segmentation_exists,
        embedding_exists,
    ));
    downloads
}

/// A command of a download, by the place of the download among all of them.
#[derive(Debug, Clone, Copy, PartialEq, Eq, Structural)]
pub enum DownloadCommand {
    /// Fetch it.
    Fetch(usize),
    /// Unpack it.
    Unpack(usize),
}

impl DownloadCommand {
    /// The place of the download.
    pub open spec fn place(self) -> int {
        match self {
            DownloadCommand::Fetch(i) => i as int,
            DownloadCommand::Unpack(i) => i as int,
        }
    }
}

/// What is done next.
#[derive(Debug)]
pub enum DownloadStep {
    /// This command is run.
    Run(DownloadCommand),
    /// Everything ends with this failure.
    Failed(&'static str),
    /// There is nothing left to do.
    Done,
}

/// What is known of what is done next.
pub enum NextStep {
    /// This command is run.
    Run(DownloadCommand),
    /// Everything ends with this failure.
    Failed(Seq<char>),
    /// There is nothing left to do.
    Done,
}

impl View for DownloadStep {
    type V = NextStep;

    open spec fn view(&self) -> NextStep {
        match *self {
            DownloadStep::Run(command) => NextStep::Run(command),
            DownloadStep::Failed(failure) => NextStep::Failed(failure@),
            DownloadStep::Done => NextStep::Done,
        }
    }
}

/// The download at this place is begun, if there is one.
pub open spec fn begun_at(plan: Seq<DownloadPlan>, place: int) -> NextStep {
    if place < plan.len() {
        NextStep::Run(DownloadCommand::Fetch(place as usize))
    } else {
        NextStep::Done
    }
}

/// What is said when a command fails.
pub open spec fn failure_of(plan: Seq<DownloadPlan>, command: DownloadCommand) -> Seq<char> {
    match command {
        DownloadCommand::Fetch(i) => plan[i as int].failure,
        DownloadCommand::Unpack(i) => plan[i as int].extract_failure,
    }
}

/// What follows the last command, of which it is known whether it succeeded:
/// nothing after a failure, and otherwise what is left of its download and then
/// the next one.
pub open spec fn step_after(
    plan: Seq<DownloadPlan>,
    last: Option<(DownloadCommand, bool)>,
) -> NextStep {
    match last {
        None => begun_at(plan, 0),
        Some((command, succeeded)) => if !succeeded {
            NextStep::Failed(failure_of(plan, command))
        } else {
            match command {
                DownloadCommand::Fetch(i) => if plan[i as int].archive {
                    NextStep::Run(DownloadCommand::Unpack(i))
                } else {
                    begun_at(plan, i + 1)
                },
                DownloadCommand::Unpack(i) => begun_at(plan, i + 1),
            }
        },
    }
}

/// What follows the last command and its success; the first command where there
/// was none.
pub fn download_step(downloads: &Vec<Download>, last: Option<(DownloadCommand, bool)>) -> (step:
    DownloadStep)
    requires
        last matches Some((command, _)) ==> command.place() < downloads@.len(),
    ensures
        step@ == step_after(plans(downloads@), last),
{
    let ghost plan = plans(downloads@);
    let count: usize = downloads.len();
    let begin: usize = match last {
        None => 0,
        Some((DownloadCommand::Fetch(i), succeeded)) => {
            assert(plan[i as int] == downloads@[i as int]@);
            if !succeeded {
                return DownloadStep::Failed(downloads[i].failure);
            }
            if downloads[i].archive {
                return DownloadStep::Run(DownloadCommand::Unpack(i));
            }
            i + 1
        },
        Some((DownloadCommand::Unpack(i), succeeded)) => {
            assert(plan[i as int] == downloads@[i as int]@);
            if !succeeded {
                return DownloadStep::Failed(downloads[i].extract_failure);
            }
            i + 1
        },
    };
    if begin < count {
        DownloadStep::Run(DownloadCommand::Fetch(begin))
    } else {
        DownloadStep::Done
    }
}

/// All commands of the downloads from this place on, in order.
pub open spec fn commands_from(plan: Seq<DownloadPlan>, place: int) -> Seq<DownloadCommand>
    decreases plan.len() - place,
{
    if place >= plan.len() {
        Seq::empty()
    } else if plan[place].archive {
        seq![DownloadCommand::Fetch(place as usize), DownloadCommand::Unpack(place as usize)]
            + commands_from(plan, place + 1)
    } else {
        seq![DownloadCommand::Fetch(place as usize)] + commands_from(plan, place + 1)
    }
}

/// What is done next after commands with these outcomes, in which the end is
/// the end.
pub open spec fn step_after_all(plan: Seq<DownloadPlan>, outcomes: Seq<bool>) -> NextStep
    decreases outcomes.len(),
{
    if outcomes.len() == 0 {
        step_after(plan, None)
    } else {
        match step_after_all(plan, outcomes.drop_last()) {
            NextStep::Run(command) => step_after(plan, Some((command, outcomes.last()))),
            ended => ended,
        }
    }
}

/// The commands that are left from a step on.
spec fn left_from(plan: Seq<DownloadPlan>, step: NextStep) -> Seq<DownloadCommand> {
    match step {
        NextStep::Run(DownloadCommand::Fetch(i)) => commands_from(plan, i as int),
        NextStep::Run(DownloadCommand::Unpack(i)) => seq![DownloadCommand::Unpack(i)]
            + commands_from(plan, i + 1),
        _ => Seq::empty(),
    }
}

/// The step belongs to the plan.
spec fn fits(plan: Seq<DownloadPlan>, step: NextStep) -> bool {
    step matches NextStep::Run(command) ==> command.place() < plan.len()
}

/// A command that is run is the first of those that are left, and its success
/// leaves the others.
proof fn lemma_step_takes_one(plan: Seq<DownloadPlan>, command: DownloadCommand)
    requires
        plan.len() <= usize::MAX,
        command.place() < plan.len(),
        command is Unpack ==> plan[command.place()].archive,
    ensures
        ({
            let left = left_from(plan, NextStep::Run(command));
            let next = step_after(plan, Some((command, true)));
            &&& left.len() > 0
            &&& left[0] == command
            &&& left_from(plan, next) == left.drop_first()
            &&& !(next is Failed)
            &&& fits(plan, next)
            &&& next matches NextStep::Run(DownloadCommand::Unpack(i)) ==> plan[i as int].archive
        }),
{
    let left = left_from(plan, NextStep::Run(command));
    let next = step_after(plan, Some((command, true)));
    let place = command.place();
    if place + 1 >= plan.len() {
        assert(commands_from(plan, place + 1) =~= Seq::empty());
    }
    assert(left_from(plan, next) =~= left.drop_first());
}

/// As long as every command succeeds, what is left is what was not run yet.
proof fn lemma_successes(plan: Seq<DownloadPlan>, outcomes: Seq<bool>)
    requires
        plan.len() <= usize::MAX,
        forall|j: int| 0 <= j < outcomes.len() ==> #[trigger] outcomes[j],
    ensures
        ({
            let step = step_after_all(plan, outcomes);
            let commands = commands_from(plan, 0);
            &&& !(step is Failed)
            &&& fits(plan, step)
            &&& step matches NextStep::Run(DownloadCommand::Unpack(i)) ==> plan[i as int].archive
            &&& outcomes.len() <= commands.len() ==> left_from(plan, step) == commands.skip(
                outcomes.len() as int,
            )
            &&& outcomes.len() >= commands.len() ==> step is Done
        }),
    decreases outcomes.len(),
{
    let commands = commands_from(plan, 0);
    let step = step_after_all(plan, outcomes);
    if outcomes.len() == 0 {
        assert(commands.skip(0) =~= commands);
        assert(left_from(plan, step) =~= commands);
    } else {
        let fewer = outcomes.drop_last();
        assert forall|j: int| 0 <= j < fewer.len() implies #[trigger] fewer[j] by {
            assert(outcomes[j]);
        }
        assert(outcomes[outcomes.len() - 1]);
        lemma_successes(plan, fewer);
        if let NextStep::Run(command) = step_after_all(plan, fewer) {
            lemma_step_takes_one(plan, command);
            assert(commands.skip(fewer.len() as int).drop_first() =~= commands.skip(
                outcomes.len() as int,
            ));
        }
    }
    if let NextStep::Run(command) = step {
        lemma_step_takes_one(plan, command);
    }
}

/// A failure stays.
proof fn lemma_failure_stays(plan: Seq<DownloadPlan>, outcomes: Seq<bool>, k: int)
    requires
        0 <= k <= outcomes.len(),
        !(step_after_all(plan, outcomes.take(k)) is Run),
    ensures
        step_after_all(plan, outcomes) == step_after_all(plan, outcomes.take(k)),
    decreases outcomes.len(),
{
    if k < outcomes.len() {
        let fewer = outcomes.drop_last();
        assert(fewer.take(k) =~= outcomes.take(k));
        lemma_failure_stays(plan, fewer, k);
    } else {
        assert(outcomes.take(k) =~= outcomes);
    }
}

/// The commands of the downloads are run in order as long as they succeed, and
/// it is done after the last of them. The first that fails ends everything with
/// its own failure, and none follows it.
pub proof fn law_first_failure_ends_the_downloads(plan: Seq<DownloadPlan>, outcomes: Seq<bool>)
    requires
        plan.len() <= usize::MAX,
    ensures
        ({
            let commands = commands_from(plan, 0);
            let step = step_after_all(plan, outcomes);
            &&& (forall|j: int| 0 <= j < outcomes.len() ==> #[trigger] outcomes[j]) ==> step == (
            if outcomes.len() < commands.len() {
                NextStep::Run(commands[outcomes.len() as int])
            } else {
                NextStep::Done
            })
            &&& forall|k: int|
                0 <= k < outcomes.len() && k < commands.len() && !(#[trigger] outcomes[k]) && (
                forall|j: int| 0 <= j < k ==> #[trigger] outcomes[j]) ==> step == NextStep::Failed(
                    failure_of(plan, commands[k]),
                )
        }),
{
    let commands = commands_from(plan, 0);
    let step = step_after_all(plan, outcomes);
    if forall|j: int| 0 <= j < outcomes.len() ==> #[trigger] outcomes[j] {
        lemma_successes(plan, outcomes);
        if let NextStep::Run(command) = step {
            lemma_step_takes_one(plan, command);
        } else if outcomes.len() < commands.len() {
            assert(commands.skip(outcomes.len() as int).len() > 0);
        }
    }
    assert forall|k: int|
        0 <= k < outcomes.len() && k < commands.len() && !(#[trigger] outcomes[k]) && (forall|j: int|
            0 <= j < k ==> #[trigger] outcomes[j]) implies step == NextStep::Failed(
        failure_of(plan, commands[k]),
    ) by {
        let before = outcomes.take(k);
        let with = outcomes.take(k + 1);
        assert forall|j: int| 0 <= j < before.len() implies #[trigger] before[j] by {
            assert(outcomes[j]);
        }
        lemma_successes(plan, before);
        assert(with.drop_last() =~= before);
        assert(with.last() == outcomes[k]);
        assert(commands.skip(k).len() > 0);
        if let NextStep::Run(command) = step_after_all(plan, before) {
            lemma_step_takes_one(plan, command);
            assert(commands[k] == command);
        }
        lemma_failure_stays(plan, outcomes, k + 1);
    }
}

/// No command fetches a model that is there, puts anything in its place, or
/// unpacks anything over it. Where all models are there no command is run, so
/// doing it again after a success does nothing.
pub proof fn law_downloads_leave_what_is_there(
    models_dir: Seq<char>,
    turbo_exists: bool,
    segmentation_exists: bool,
    embedding_exists: bool,
    outcomes: Seq<bool>,
)
    ensures
        ({
            let plan = missing_plan(
                models_dir,
                turbo_exists,
                segmentation_exists,
                embedding_exists,
            );
            &&& turbo_exists ==> forall|i: int|
                0 <= i < plan.len() ==> (#[trigger] plan[i]).target != path_below(
                    models_dir,
                    TURBO_FILE@,
                )
            &&& segmentation_exists ==> forall|i: int|
                0 <= i < plan.len() ==> !(#[trigger] plan[i]).archive && plan[i].target
                    != path_below(models_dir, SEGMENTATION_DIR@)
            &&& embedding_exists ==> forall|i: int|
                0 <= i < plan.len() ==> (#[trigger] plan[i]).target != path_below(
                    models_dir,
                    EMBEDDING_FILE@,
                )
            &&& turbo_exists && segmentation_exists && embedding_exists ==> step_after_all(
                plan,
                outcomes,
            ) is Done
        }),
    decreases outcomes.len(),
{
    let plan = missing_plan(models_dir, turbo_exists, segmentation_exists, embedding_exists);
    reveal_strlit("ggml-large-v3-turbo.bin");
    reveal_strlit("sherpa-onnx-pyannote-segmentation-3-0");
    reveal_strlit("sherpa-onnx-pyannote-segmentation-3-0.tar.bz2");
    reveal_strlit("3dspeaker_speech_eres2net_base_sv_zh-cn_3dspeaker_16k.onnx");
    let archive = "sherpa-onnx-pyannote-segmentation-3-0.tar.bz2"@;
    assert(TURBO_FILE@.len() != SEGMENTATION_DIR@.len());
    assert(TURBO_FILE@.len() != EMBEDDING_FILE@.len());
    assert(TURBO_FILE@.len() != archive.len());
    assert(EMBEDDING_FILE@.len() != archive.len());
    assert(EMBEDDING_FILE@.len() != SEGMENTATION_DIR@.len());
    lemma_paths_differ(models_dir, TURBO_FILE@, SEGMENTATION_DIR@);
    lemma_paths_differ(models_dir, TURBO_FILE@, EMBEDDING_FILE@);
    lemma_paths_differ(models_dir, TURBO_FILE@, archive);
    lemma_paths_differ(models_dir, EMBEDDING_FILE@, archive);
    lemma_paths_differ(models_dir, EMBEDDING_FILE@, SEGMENTATION_DIR@);
    if turbo_exists && segmentation_exists && embedding_exists {
        assert(plan.len() == 0);
        if outcomes.len() > 0 {
            law_downloads_leave_what_is_there(
                models_dir,
                turbo_exists,
                segmentation_exists,
                embedding_exists,
                outcomes.drop_last(),
            );
        }
    }
}

/// The line that lists an input device.
pub fn device_line(name: &str, default_name: Option<&str>) -> (line: String)
    ensures
        line@ == "  - "@ + name@ + (if optional_str(default_name) == Some(name@) {
            " (default)"@
        } else {
            ""@
        }),
{
    let mut line = "  - ".to_owned();
    line.append(name);
    let is_default = match default_name {
        Some(default_name) => text::equal(default_name, name),
        None => false,
    };
    line.append(
        if is_default {
            " (default)"
        } else {
            ""
        },
    );
    line
}

/// A device of this name is what is looked for.
pub open spec fn name_fits(name: Option<String>, wanted: Seq<char>) -> bool {
    match name {
        Some(n) => text::has_part(n@, wanted),
        None => false,
    }
}

/// The first device whose name has what is looked for in it. Devices without a
/// name do not.
pub fn choose_device(names: &Vec<Option<String>>, wanted: &str) -> (index: Option<usize>)
    ensures
        match index {
            Some(i) => {
                &&& i < names@.len()
                &&& name_fits(names@[i as int], wanted@)
                &&& forall|j: int| 0 <= j < i ==> !name_fits(#[trigger] names@[j], wanted@)
            },
            None => forall|j: int|
                0 <= j < names@.len() ==> !name_fits(#[trigger] names@[j], wanted@),
        },
{
    for i in 0..names.len()
        invariant
            forall|j: int| 0 <= j < i ==> !name_fits(#[trigger] names@[j], wanted@),
    {
        if let Some(name) = &names[i] {
            if text::contains(name.as_str(), wanted) {
                return Some(i);
            }
        }
    }
    None
}

/// The configuration with the highest sample rate; of several the last.
pub fn highest_rate(rates: &Vec<u32>) -> (index: Option<usize>)
    ensures
        match index {
            Some(i) => {
                &&& i < rates@.len()
                &&& forall|j: int| 0 <= j < rates@.len() ==> #[trigger] rates@[j] <= rates@[i as int]
                &&& forall|j: int|
                    i < j < rates@.len() ==> #[trigger] rates@[j] < rates@[i as int]
            },
            None => rates@.len() == 0,
        },
{
    if rates.len() == 0 {
        return None;
    }
    let mut best: usize = 0;
    for i in 0..rates.len()
        invariant
            best < rates@.len(),
            best <= i,
            i > 0 ==> best < i,
            i == 0 ==> best == 0,
            forall|j: int| 0 <= j < i ==> #[trigger] rates@[j] <= rates@[best as int],
            forall|j: int| best < j < i ==> #[trigger] rates@[j] < rates@[best as int],
    {
        if rates[i] >= rates[best] {
            best = i;
        }
    }
    Some(best)
}

/// A text with a backslash before each backslash and each quotation mark.
pub open spec fn escaped(s: Seq<char>) -> Seq<char>
    decreases s.len(),
{
    if s.len() == 0 {
        Seq::empty()
    } else {
        let earlier = escaped(s.drop_last());
        if s.last() == '\\' || s.last() == '"' {
            earlier.push('\\').push(s.last())
        } else {
            earlier.push(s.last())
        }
    }
}

/// The script that starts the program in a terminal window.
pub open spec fn script_text(exe: Seq<char>) -> Seq<char> {
    "tell application \"Terminal\"\n  activate\n  do script \""@ + escaped(exe)
        + "\"\nend tell"@
}

/// The script that starts the program in a terminal window. The path cannot end
/// the string that it stands in.
pub fn launch_script(exe: &str) -> (script: String)
    ensures
        script@ == script_text(exe@),
{
    let chars = text::chars_of(exe);
    let mut inner = String::new();
    for i in 0..chars.len()
        invariant
            inner@ == escaped(chars@.take(i as int)),
    {
        assert(chars@.take(i + 1).drop_last() =~= chars@.take(i as int));
        if chars[i] == '\\' || chars[i] == '"' {
            inner.push('\\');
        }
        inner.push(chars[i]);
    }
    assert(chars@.take(chars@.len() as int) =~= exe@);
    let mut script = "tell application \"Terminal\"\n  activate\n  do script \"".to_owned();
    script.append(inner.as_str());
    script.append("\"\nend tell");
    script
}

/// What a quoted string stands for that begins at the start of `s`, just behind
/// its opening mark, and what follows its closing mark.
pub open spec fn quoted(s: Seq<char>) -> (Seq<char>, Seq<char>)
    decreases s.len(),
{
    if s.len() == 0 {
        (Seq::empty(), Seq::empty())
    } else if s[0] == '"' {
        (Seq::empty(), s.skip(1))
    } else if s[0] == '\\' && s.len() > 1 {
        let (inner, rest) = quoted(s.skip(2));
        (seq![s[1]] + inner, rest)
    } else {
        let (inner, rest) = quoted(s.skip(1));
        (seq![s[0]] + inner, rest)
    }
}

proof fn lemma_escaped_first(s: Seq<char>)
    requires
        s.len() > 0,
    ensures
        escaped(s) == (if s[0] == '\\' || s[0] == '"' {
            seq!['\\', s[0]]
        } else {
            seq![s[0]]
        }) + escaped(s.drop_first()),
    decreases s.len(),
{
    let fewer = s.drop_last();
    if fewer.len() == 0 {
        assert(s.drop_first() =~= Seq::empty());
        assert(escaped(fewer) =~= Seq::empty());
        assert(escaped(s) =~= (if s[0] == '\\' || s[0] == '"' {
            seq!['\\', s[0]]
        } else {
            seq![s[0]]
        }) + escaped(s.drop_first()));
    } else {
        lemma_escaped_first(fewer);
        assert(s.drop_first().drop_last() =~= fewer.drop_first());
        assert(s.drop_first().last() == s.last());
        assert(escaped(s) =~= (if s[0] == '\\' || s[0] == '"' {
            seq!['\\', s[0]]
        } else {
            seq![s[0]]
        }) + escaped(s.drop_first()));
    }
}

/// A path that is quoted in the script stands for itself, whatever it holds, and
/// what follows the quotation is not part of it.
pub proof fn law_quoted_path_is_the_path(exe: Seq<char>, rest: Seq<char>)
    ensures
        quoted(escaped(exe) + seq!['"'] + rest) == (exe, rest),
    decreases exe.len(),
{
    let whole = escaped(exe) + seq!['"'] + rest;
    if exe.len() == 0 {
        assert(whole.skip(1) =~= rest);
        assert(exe =~= Seq::empty());
    } else {
        let others = exe.drop_first();
        lemma_escaped_first(exe);
        law_quoted_path_is_the_path(others, rest);
        let tail = escaped(others) + seq!['"'] + rest;
        assert(seq![exe[0]] + others =~= exe);
        if exe[0] == '\\' || exe[0] == '"' {
            assert(whole.skip(2) =~= tail);
        } else {
            assert(whole.skip(1) =~= tail);
        }
    }
}

/// Tells whether the program was started without a terminal and without
/// arguments, and has to be started again in a terminal window.
pub fn needs_terminal(stdin_is_terminal: bool, arguments: usize) -> (b: bool)
    ensures
        b == (!stdin_is_terminal && arguments == 1),
{
    !stdin_is_terminal && arguments == 1
}

/// A step after the meeting.
#[derive(Debug, Clone, Copy, PartialEq, Eq, Structural)]
pub enum PostStep {
    /// Keep a copy of the live transcript.
    BackUpDraft,
    /// Summarise the live transcript.
    SummariseDraft,
    /// Replace the live transcript by that of the batch model.
    Retranscribe,
    /// Label the speakers.
    Diarise,
    /// Summarise the final transcript.
    Summarise,
}

/// At most one step.
pub open spec fn only_if(wanted: bool, step: PostStep) -> Seq<PostStep> {
    if wanted {
        seq![step]
    } else {
        Seq::empty()
    }
}

/// The steps after the meeting, in order.
pub fn post_steps(events_exist: bool, no_summary: bool, no_retranscribe: bool, no_diarize: bool) -> (
steps: Vec<PostStep>)
    ensures
        steps@ == only_if(events_exist, PostStep::BackUpDraft) + only_if(
            !no_summary,
            PostStep::SummariseDraft,
        ) + only_if(!no_retranscribe, PostStep::Retranscribe) + only_if(
            !no_diarize,
            PostStep::Diarise,
        ) + only_if(!no_summary, PostStep::Summarise),
{
    let mut steps: Vec<PostStep> = Vec::new();
    if events_exist {
        steps.push(PostStep::BackUpDraft);
    }
    if !no_summary {
        steps.push(PostStep::SummariseDraft);
    }
    if !no_retranscribe {
        steps.push(PostStep::Retranscribe);
    }
    if !no_diarize {
        steps.push(PostStep::Diarise);
    }
    if !no_summary {
        steps.push(PostStep::Summarise);
    }
    steps
}

/// A session that is given a path is kept there. One that is given a name is
/// kept under it among the user's meetings, and one that is given nothing under
/// its time. Without a home they are kept below the current directory.
pub proof fn law_sessions_have_their_folder(
    name: Seq<char>,
    home: Seq<char>,
    time: Seq<char>,
    somewhere: Option<Seq<char>>,
)
    ensures
        name.contains('/') ==> folder_of(Some(name), somewhere, time) == name,
        !name.contains('/') && home.len() > 0 && home.last() != '/' ==> folder_of(
            Some(name),
            Some(home),
            time,
        ) == home + "/Documents/meetings/"@ + name,
        home.len() > 0 && home.last() != '/' ==> folder_of(None, Some(home), time) == home
            + "/Documents/meetings/meeting_"@ + time,
        !name.contains('/') ==> folder_of(Some(name), None, time) == "./Documents/meetings/"@
            + name,
        folder_of(None, None, time) == "./Documents/meetings/meeting_"@ + time,
{
    reveal_strlit("/");
    reveal_strlit(".");
    reveal_strlit("Documents");
    reveal_strlit("meetings");
    reveal_strlit("meeting_");
    reveal_strlit("/Documents/meetings/");
    reveal_strlit("/Documents/meetings/meeting_");
    reveal_strlit("./Documents/meetings/");
    reveal_strlit("./Documents/meetings/meeting_");
    if !name.contains('/') {
        if name.len() > 0 {
            assert(name[0] != '/') by {
                if name[0] == '/' {
                    assert(name.contains('/'));
                }
            }
        }
        if home.len() > 0 && home.last() != '/' {
            assert(folder_of(Some(name), Some(home), time) =~= home + "/Documents/meetings/"@
                + name);
        }
        assert(folder_of(Some(name), None, time) =~= "./Documents/meetings/"@ + name);
    }
    if home.len() > 0 && home.last() != '/' {
        assert(folder_of(None, Some(home), time) =~= home + "/Documents/meetings/meeting_"@ + time);
    }
    assert(folder_of(None, None, time) =~= "./Documents/meetings/meeting_"@ + time);
}

/// Models are looked for here, beside the program, and in the user's data
/// directory, in this order.
pub proof fn law_models_are_looked_for_in_order(exe_dir: Seq<char>, data_dir: Seq<char>)
    requires
        exe_dir.len() > 0,
        exe_dir.last() != '/',
        data_dir.len() > 0,
        data_dir.last() != '/',
    ensures
        model_places(Some(exe_dir), Some(data_dir)) == seq![
            "models"@,
            exe_dir + "/models"@,
            data_dir + "/stt-cli/models"@,
        ],
        model_places(None, None) == seq!["models"@, Seq::empty(), Seq::empty()],
        data_models_dir(data_dir) == data_dir + "/stt-cli/models"@,
{
    reveal_strlit("/");
    reveal_strlit("models");
    reveal_strlit("stt-cli");
    reveal_strlit("/models");
    reveal_strlit("/stt-cli/models");
    assert(path_below(exe_dir, "models"@) =~= exe_dir + "/models"@);
    assert(data_models_dir(data_dir) =~= data_dir + "/stt-cli/models"@);
}

/// A directory has a model when it has either of the two, and a device fits when
/// its name has what is looked for in it.
pub proof fn law_what_fits(dir: ModelDir, name: String, wanted: Seq<char>)
    ensures
        dir.has_model() <==> dir.has_turbo || dir.has_large,
        name_fits(Some(name), wanted) <==> exists|from: int|
            0 <= from && from + wanted.len() <= name@.len() && #[trigger] name@.subrange(
                from,
                from + wanted.len(),
            ) == wanted,
        !name_fits(None, wanted),
{
    if name_fits(Some(name), wanted) {
        let from = choose|from: int| text::has_part_at(name@, wanted, from);
        assert(name@.subrange(from, from + wanted.len()) == wanted);
    }
    if exists|from: int|
        0 <= from && from + wanted.len() <= name@.len() && #[trigger] name@.subrange(
            from,
            from + wanted.len(),
        ) == wanted {
        let from = choose|from: int|
            0 <= from && from + wanted.len() <= name@.len() && #[trigger] name@.subrange(
                from,
                from + wanted.len(),
            ) == wanted;
        assert(text::has_part_at(name@, wanted, from));
    }
}

/// A model is fetched from a file of the name under which it is kept.
pub proof fn law_models_keep_their_names(models_dir: Seq<char>)
    ensures
        text::has_suffix(turbo_plan(models_dir).url, "/ggml-large-v3-turbo.bin"@),
        turbo_plan(models_dir).target == path_below(models_dir, "ggml-large-v3-turbo.bin"@),
        text::has_suffix(
            segmentation_plan(models_dir).url,
            "/sherpa-onnx-pyannote-segmentation-3-0.tar.bz2"@,
        ),
        segmentation_plan(models_dir).target == path_below(
            models_dir,
            "sherpa-onnx-pyannote-segmentation-3-0.tar.bz2"@,
        ),
        text::has_suffix(
            embedding_plan(models_dir).url,
            "/3dspeaker_speech_eres2net_base_sv_zh-cn_3dspeaker_16k.onnx"@,
        ),
        embedding_plan(models_dir).target == path_below(
            models_dir,
            "3dspeaker_speech_eres2net_base_sv_zh-cn_3dspeaker_16k.onnx"@,
        ),
        segmentation_plan(models_dir).archive,
        !turbo_plan(models_dir).archive,
        !embedding_plan(models_dir).archive,
        segmentation_path(models_dir) == path_below(
            path_below(models_dir, "sherpa-onnx-pyannote-segmentation-3-0"@),
            "model.onnx"@,
        ),
{
    reveal_strlit("/ggml-large-v3-turbo.bin");
    reveal_strlit(
        "https://huggingface.co/ggerganov/whisper.cpp/resolve/main/ggml-large-v3-turbo.bin",
    );
    reveal_strlit("/sherpa-onnx-pyannote-segmentation-3-0.tar.bz2");
    reveal_strlit(
        "https://github.com/k2-fsa/sherpa-onnx/releases/download/speaker-segmentation-models/sherpa-onnx-pyannote-segmentation-3-0.tar.bz2",
    );
    reveal_strlit("/3dspeaker_speech_eres2net_base_sv_zh-cn_3dspeaker_16k.onnx");
    reveal_strlit(
        "https://github.com/k2-fsa/sherpa-onnx/releases/download/speaker-recongition-models/3dspeaker_speech_eres2net_base_sv_zh-cn_3dspeaker_16k.onnx",
    );
    let turbo = turbo_plan(models_dir).url;
    let turbo_name = "/ggml-large-v3-turbo.bin"@;
    assert(turbo.skip(turbo.len() - turbo_name.len()) =~= turbo_name);
    let segmentation = segmentation_plan(models_dir).url;
    let segmentation_name = "/sherpa-onnx-pyannote-segmentation-3-0.tar.bz2"@;
    assert(segmentation.skip(segmentation.len() - segmentation_name.len())
        =~= segmentation_name);
    let embedding = embedding_plan(models_dir).url;
    let embedding_name = "/3dspeaker_speech_eres2net_base_sv_zh-cn_3dspeaker_16k.onnx"@;
    assert(embedding.skip(embedding.len() - embedding_name.len()) =~= embedding_name);
}

/// Exactly the models that are not there are planned, in order, and a step is
/// among those that are done exactly when it is wanted.
pub proof fn law_only_what_is_wanted(
    models_dir: Seq<char>,
    turbo_exists: bool,
    segmentation_exists: bool,
    embedding_exists: bool,
    wanted: bool,
    step: PostStep,
)
    ensures
        ({
            let plan = missing_plan(
                models_dir,
                turbo_exists,
                segmentation_exists,
                embedding_exists,
            );
            &&& plan.contains(turbo_plan(models_dir)) <==> !turbo_exists
            &&& plan.contains(segmentation_plan(models_dir)) <==> !segmentation_exists
            &&& plan.contains(embedding_plan(models_dir)) <==> !embedding_exists
            &&& !turbo_exists && !segmentation_exists && !embedding_exists ==> plan == seq![
                turbo_plan(models_dir),
                segmentation_plan(models_dir),
                embedding_plan(models_dir),
            ]
        }),
        wanted ==> only_if(wanted, step) == seq![step],
        !wanted ==> only_if(wanted, step).len() == 0,
{
    let plan = missing_plan(models_dir, turbo_exists, segmentation_exists, embedding_exists);
    let turbo = turbo_plan(models_dir);
    let segmentation = segmentation_plan(models_dir);
    let embedding = embedding_plan(models_dir);
    reveal_strlit("ggml-large-v3-turbo.bin");
    reveal_strlit("3dspeaker_speech_eres2net_base_sv_zh-cn_3dspeaker_16k.onnx");
    assert(TURBO_FILE@.len() != EMBEDDING_FILE@.len());
    lemma_paths_differ(models_dir, TURBO_FILE@, EMBEDDING_FILE@);
    assert(turbo.archive != segmentation.archive);
    assert(embedding.archive != segmentation.archive);
    assert(turbo.target != embedding.target);
    if !turbo_exists {
        assert(plan[0] == turbo);
    }
    let second: int = if turbo_exists {
        0
    } else {
        1
    };
    if !segmentation_exists {
        assert(plan[second] == segmentation);
    }
    if !embedding_exists {
        assert(plan[plan.len() - 1] == embedding);
    }
    if !turbo_exists && !segmentation_exists && !embedding_exists {
        assert(plan =~= seq![turbo, segmentation, embedding]);
    }
}

/// What follows a command: after a fetch that succeeded the unpacking of an
/// archive, and otherwise the next download, if there is one. A command that
/// failed is followed by its own failure, and where nothing is planned nothing
/// is done.
pub proof fn law_what_follows_a_command(plan: Seq<DownloadPlan>, i: usize)
    requires
        plan.len() <= usize::MAX,
    ensures
        plan.len() == 0 ==> step_after(plan, None) == NextStep::Done,
        plan.len() > 0 ==> step_after(plan, None) == NextStep::Run(DownloadCommand::Fetch(0)),
        i < plan.len() ==> {
            let next = if i + 1 < plan.len() {
                NextStep::Run(DownloadCommand::Fetch((i + 1) as usize))
            } else {
                NextStep::Done
            };
            &&& plan[i as int].archive ==> step_after(
                plan,
                Some((DownloadCommand::Fetch(i), true)),
            ) == NextStep::Run(DownloadCommand::Unpack(i))
            &&& !plan[i as int].archive ==> step_after(
                plan,
                Some((DownloadCommand::Fetch(i), true)),
            ) == next
            &&& step_after(plan, Some((DownloadCommand::Unpack(i), true))) == next
            &&& step_after(plan, Some((DownloadCommand::Fetch(i), false))) == NextStep::Failed(
                plan[i as int].failure,
            )
            &&& step_after(plan, Some((DownloadCommand::Unpack(i), false))) == NextStep::Failed(
                plan[i as int].extract_failure,
            )
        },
{
}

/// Every download is fetched, and every archive, and nothing else, is unpacked.
pub proof fn law_every_download_is_run(plan: Seq<DownloadPlan>, i: usize)
    requires
        plan.len() <= usize::MAX,
        i < plan.len(),
    ensures
        commands_from(plan, 0).contains(DownloadCommand::Fetch(i)),
        commands_from(plan, 0).contains(DownloadCommand::Unpack(i)) <==> plan[i as int].archive,
{
    lemma_commands(plan, 0, i);
}

proof fn lemma_commands(plan: Seq<DownloadPlan>, place: int, i: usize)
    requires
        plan.len() <= usize::MAX,
        i < plan.len(),
        0 <= place,
    ensures
        commands_from(plan, place).contains(DownloadCommand::Fetch(i)) <==> place <= i,
        commands_from(plan, place).contains(DownloadCommand::Unpack(i)) <==> place <= i
            && plan[i as int].archive,
    decreases plan.len() - place,
{
    let all = commands_from(plan, place);
    if place < plan.len() {
        lemma_commands(plan, place + 1, i);
        let rest = commands_from(plan, place + 1);
        let own = if plan[place].archive {
            seq![DownloadCommand::Fetch(place as usize), DownloadCommand::Unpack(place as usize)]
        } else {
            seq![DownloadCommand::Fetch(place as usize)]
        };
        assert(all =~= own + rest);
        lemma_contains_either(own, rest, DownloadCommand::Fetch(i));
        lemma_contains_either(own, rest, DownloadCommand::Unpack(i));
        assert(own[0] == DownloadCommand::Fetch(place as usize));
        if plan[place].archive {
            assert(own[1] == DownloadCommand::Unpack(place as usize));
        }
    }
}

proof fn lemma_contains_either(
    own: Seq<DownloadCommand>,
    rest: Seq<DownloadCommand>,
    command: DownloadCommand,
)
    ensures
        (own + rest).contains(command) <==> own.contains(command) || rest.contains(command),
{
    let all = own + rest;
    if all.contains(command) {
        let k = choose|k: int| 0 <= k < all.len() && all[k] == command;
        if k < own.len() {
            assert(own[k] == command);
        } else {
            assert(rest[k - own.len()] == command);
        }
    }
    if own.contains(command) {
        let k = choose|k: int| 0 <= k < own.len() && own[k] == command;
        assert(all[k] == command);
    }
    if rest.contains(command) {
        let k = choose|k: int| 0 <= k < rest.len() && rest[k] == command;
        assert(all[own.len() + k] == command);
    }
}

/// The script runs just the program: what stands between its quotation marks is
/// read as the path, and the rest of the script follows.
pub proof fn law_script_runs_the_program(exe: Seq<char>)
    ensures
        text::has_prefix(
            script_text(exe),
            "tell application \"Terminal\"\n  activate\n  do script \""@,
        ),
        quoted(
            script_text(exe).skip(
                "tell application \"Terminal\"\n  activate\n  do script \""@.len() as int,
            ),
        ) == (exe, "\nend tell"@),
{
    let head = "tell application \"Terminal\"\n  activate\n  do script \""@;
    let script = script_text(exe);
    reveal_strlit("\"\nend tell");
    reveal_strlit("\nend tell");
    law_quoted_path_is_the_path(exe, "\nend tell"@);
    assert(script.take(head.len() as int) =~= head);
    assert(script.skip(head.len() as int) =~= escaped(exe) + seq!['"'] + "\nend tell"@);
}

/// What is known of a download and of a step is what it holds.
pub proof fn law_downloads_are_known(
    download: Download,
    downloads: Seq<Download>,
    i: int,
    command: DownloadCommand,
    failure: &'static str,
)
    ensures
        download@.url == download.url@,
        download@.target == download.target@,
        download@.announce == download.announce@,
        download@.ready == download.ready@,
        download@.failure == download.failure@,
        download@.archive == download.archive,
        download@.extract_failure == download.extract_failure@,
        plans(downloads).len() == downloads.len(),
        0 <= i < downloads.len() ==> plans(downloads)[i] == downloads[i]@,
        DownloadStep::Run(command)@ == NextStep::Run(command),
        DownloadStep::Failed(failure)@ == NextStep::Failed(failure@),
        DownloadStep::Done@ == NextStep::Done,
{
}

} // verus!
