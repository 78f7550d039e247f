//! Steps that bring a release onto a machine, as the executors plan them.

use crate::text::concat;
use crate::text_map::TextMap;
use crate::types::manifest::{GrubAbBootControl, GrubAbBootControlView};
use vstd::prelude::*;

verus! {

/// A program to run.
#[derive(Debug)]
pub struct ProgramCall {
    pub program: String,
    pub args: Vec<String>,
    /// Variables to set in its environment.
    pub env: TextMap,
    /// The complaint where the program cannot be started.
    pub context: String,
    /// The complaint where the program fails.
    pub failure: String,
}

/// The value of a [`ProgramCall`].
#[verifier::ext_equal]
pub struct ProgramCallView {
    pub program: Seq<char>,
    pub args: Seq<Seq<char>>,
    pub env: Map<Seq<char>, Seq<char>>,
    pub context: Seq<char>,
    pub failure: Seq<char>,
}

impl View for ProgramCall {
    type V = ProgramCallView;

    open spec fn view(&self) -> ProgramCallView {
        ProgramCallView {
            program: self.program@,
            args: self.args.deep_view(),
            env: self.env@,
            context: self.context@,
            failure: self.failure@,
        }
    }
}

impl DeepView for ProgramCall {
    type V = ProgramCallView;

    open spec fn deep_view(&self) -> ProgramCallView {
        self@
    }
}

impl Clone for ProgramCall {
    fn clone(&self) -> (r: Self)
        ensures
            r@ == self@,
    {
        let args = self.args.clone();
        assert(args.deep_view() =~= self.args.deep_view());
        ProgramCall {
            program: self.program.clone(),
            args,
            env: self.env.clone(),
            context: self.context.clone(),
            failure: self.failure.clone(),
        }
    }
}

/// A file to copy.
#[derive(Debug)]
pub struct FileCopy {
    pub from: String,
    pub to: String,
}

/// The value of a [`FileCopy`].
#[verifier::ext_equal]
pub struct FileCopyView {
    pub from: Seq<char>,
    pub to: Seq<char>,
}

impl View for FileCopy {
    type V = FileCopyView;

    open spec fn view(&self) -> FileCopyView {
        FileCopyView {
            from: self.from@,
            to: self.to@,
        }
    }
}

impl Clone for FileCopy {
    fn clone(&self) -> (r: Self)
        ensures
            r@ == self@,
    {
        FileCopy {
            from: self.from.clone(),
            to: self.to.clone(),
        }
    }
}

/// A file to write.
#[derive(Debug)]
pub struct FileText {
    pub path: String,
    pub contents: String,
}

/// The value of a [`FileText`].
#[verifier::ext_equal]
pub struct FileTextView {
    pub path: Seq<char>,
    pub contents: Seq<char>,
}

impl View for FileText {
    type V = FileTextView;

    open spec fn view(&self) -> FileTextView {
        FileTextView {
            path: self.path@,
            contents: self.contents@,
        }
    }
}

impl Clone for FileText {
    fn clone(&self) -> (r: Self)
        ensures
            r@ == self@,
    {
        FileText {
            path: self.path.clone(),
            contents: self.contents.clone(),
        }
    }
}

/// The menu entry that the boot loader is to start next.
#[derive(Debug)]
pub struct SavedEntry {
    pub boot_control: GrubAbBootControl,
    pub entry: String,
}

/// The value of a [`SavedEntry`].
#[verifier::ext_equal]
pub struct SavedEntryView {
    pub boot_control: GrubAbBootControlView,
    pub entry: Seq<char>,
}

impl View for SavedEntry {
    type V = SavedEntryView;

    open spec fn view(&self) -> SavedEntryView {
        SavedEntryView {
            boot_control: self.boot_control@,
            entry: self.entry@,
        }
    }
}

impl Clone for SavedEntry {
    fn clone(&self) -> (r: Self)
        ensures
            r@ == self@,
    {
        SavedEntry {
            boot_control: self.boot_control.clone(),
            entry: self.entry.clone(),
        }
    }
}

/// A system to build: the program prints its path, which is to be noted.
#[derive(Debug)]
pub struct SystemBuild {
    pub call: ProgramCall,
    pub metadata_path: String,
}

/// The value of a [`SystemBuild`].
#[verifier::ext_equal]
pub struct SystemBuildView {
    pub call: ProgramCallView,
    pub metadata_path: Seq<char>,
}

impl View for SystemBuild {
    type V = SystemBuildView;

    open spec fn view(&self) -> SystemBuildView {
        SystemBuildView {
            call: self.call@,
            metadata_path: self.metadata_path@,
        }
    }
}

impl Clone for SystemBuild {
    fn clone(&self) -> (r: Self)
        ensures
            r@ == self@,
    {
        SystemBuild {
            call: self.call.clone(),
            metadata_path: self.metadata_path.clone(),
        }
    }
}

/// The path of a system to note.
#[derive(Debug)]
pub struct SystemRecord {
    pub metadata_path: String,
    pub system_path: String,
}

/// The value of a [`SystemRecord`].
#[verifier::ext_equal]
pub struct SystemRecordView {
    pub metadata_path: Seq<char>,
    pub system_path: Seq<char>,
}

impl View for SystemRecord {
    type V = SystemRecordView;

    open spec fn view(&self) -> SystemRecordView {
        SystemRecordView {
            metadata_path: self.metadata_path@,
            system_path: self.system_path@,
        }
    }
}

impl Clone for SystemRecord {
    fn clone(&self) -> (r: Self)
        ensures
            r@ == self@,
    {
        SystemRecord {
            metadata_path: self.metadata_path.clone(),
            system_path: self.system_path.clone(),
        }
    }
}

/// Something to do on the machine.
#[derive(Debug)]
pub enum Step {
    /// Runs a program.
    Run(ProgramCall),
    /// Creates a directory and those above it.
    CreateDirs(String),
    /// Copies a file.
    CopyFile(FileCopy),
    /// Writes a file.
    WriteFile(FileText),
    /// Says which menu entry the boot loader is to start next.
    SetSavedEntry(SavedEntry),
    /// Builds a system and notes its path.
    BuildSystem(SystemBuild),
    /// Notes the path of a system.
    SaveSystem(SystemRecord),
    /// Gives up, with the complaint.
    Fail(String),
}

/// The value of a [`Step`].
#[verifier::ext_equal]
pub enum StepView {
    Run(ProgramCallView),
    CreateDirs(Seq<char>),
    CopyFile(FileCopyView),
    WriteFile(FileTextView),
    SetSavedEntry(SavedEntryView),
    BuildSystem(SystemBuildView),
    SaveSystem(SystemRecordView),
    Fail(Seq<char>),
}

impl View for Step {
    type V = StepView;

    open spec fn view(&self) -> StepView {
        match self {
            Step::Run(x) => StepView::Run(x@),
            Step::CreateDirs(x) => StepView::CreateDirs(x@),
            Step::CopyFile(x) => StepView::CopyFile(x@),
            Step::WriteFile(x) => StepView::WriteFile(x@),
            Step::SetSavedEntry(x) => StepView::SetSavedEntry(x@),
            Step::BuildSystem(x) => StepView::BuildSystem(x@),
            Step::SaveSystem(x) => StepView::SaveSystem(x@),
            Step::Fail(x) => StepView::Fail(x@),
        }
    }
}

impl DeepView for Step {
    type V = StepView;

    open spec fn deep_view(&self) -> StepView {
        self@
    }
}

impl Clone for Step {
    fn clone(&self) -> (r: Self)
        ensures
            r@ == self@,
    {
        match self {
            Step::Run(x) => Step::Run(x.clone()),
            Step::CreateDirs(x) => Step::CreateDirs(x.clone()),
            Step::CopyFile(x) => Step::CopyFile(x.clone()),
            Step::WriteFile(x) => Step::WriteFile(x.clone()),
            Step::SetSavedEntry(x) => Step::SetSavedEntry(x.clone()),
            Step::BuildSystem(x) => Step::BuildSystem(x.clone()),
            Step::SaveSystem(x) => Step::SaveSystem(x.clone()),
            Step::Fail(x) => Step::Fail(x.clone()),
        }
    }
}

/// How a program ended.
#[derive(Debug, Clone, Copy, PartialEq, Eq, Structural)]
pub enum RunOutcome {
    /// It could not be started.
    NotStarted,
    /// It failed.
    Failed,
    /// It succeeded.
    Succeeded,
}

impl ProgramCall {
    /// What is said of a program that ended in this way.
    pub fn judge(&self, outcome: RunOutcome) -> (r: Result<(), String>)
        ensures
            match r {
                Ok(_) => outcome is Succeeded,
                Err(complaint) => {
                    ||| outcome is NotStarted && complaint@ == self.context@
                    ||| outcome is Failed && complaint@ == self.failure@
                },
            },
    {
        match outcome {
            RunOutcome::NotStarted => Err(self.context.clone()),
            RunOutcome::Failed => Err(self.failure.clone()),
            RunOutcome::Succeeded => Ok(()),
        }
    }
}

/// A call of a program with nothing added to its environment.
pub open spec fn plain_call(
    program: Seq<char>,
    args: Seq<Seq<char>>,
    context: Seq<char>,
    failure: Seq<char>,
) -> ProgramCallView {
    ProgramCallView { program, args, env: Map::empty(), context, failure }
}

/// A call of a program with nothing added to its environment.
pub fn call(program: &str, args: Vec<String>, context: String, failure: String) -> (r: ProgramCall)
    ensures
        r@ == plain_call(program@, args.deep_view(), context@, failure@),
{
    ProgramCall { program: program.to_string(), args, env: TextMap::new(), context, failure }
}

/// A call of the shell with a command line.
pub open spec fn shell_call_of(command: Seq<char>, env: Map<Seq<char>, Seq<char>>) -> ProgramCallView {
    ProgramCallView {
        program: "sh"@,
        args: seq!["-lc"@, command],
        env,
        context: "running shell command: "@ + command,
        failure: "command failed: "@ + command,
    }
}

/// A call of the shell with a command line.
pub fn run_shell(command: &str, env: TextMap) -> (r: ProgramCall)
    ensures
        r@ == shell_call_of(command@, env@),
{
    let args: Vec<String> = vec!["-lc".to_string(), command.to_string()];
    assert(args.deep_view() =~= seq!["-lc"@, command@]);
    ProgramCall {
        program: "sh".to_string(),
        args,
        env,
        context: concat("running shell command: ", command),
        failure: concat("command failed: ", command),
    }
}

/// The programs that the executors run.
#[derive(Debug)]
pub struct Programs {
    pub grub_editenv: String,
    pub reboot: String,
    pub dd: String,
    pub zstd: String,
    pub mount: String,
    pub umount: String,
}

/// The value of [`Programs`].
#[verifier::ext_equal]
pub struct ProgramsView {
    pub grub_editenv: Seq<char>,
    pub reboot: Seq<char>,
    pub dd: Seq<char>,
    pub zstd: Seq<char>,
    pub mount: Seq<char>,
    pub umount: Seq<char>,
}

impl View for Programs {
    type V = ProgramsView;

    open spec fn view(&self) -> ProgramsView {
        ProgramsView {
            grub_editenv: self.grub_editenv@,
            reboot: self.reboot@,
            dd: self.dd@,
            zstd: self.zstd@,
            mount: self.mount@,
            umount: self.umount@,
        }
    }
}

/// Programs to run in place of the usual ones.
#[derive(Debug)]
pub struct ProgramOverrides {
    pub grub_editenv: Option<String>,
    pub reboot: Option<String>,
    pub dd: Option<String>,
    pub zstd: Option<String>,
    pub mount: Option<String>,
    pub umount: Option<String>,
}

/// A program in place of the usual one, or the usual one.
pub open spec fn program_or(given: Option<String>, usual: Seq<char>) -> Seq<char> {
    match given {
        Some(program) => program@,
        None => usual,
    }
}

fn choose_program(given: Option<String>, usual: &str) -> (r: String)
    ensures
        r@ == program_or(given, usual@),
{
    match given {
        Some(program) => program,
        None => usual.to_string(),
    }
}

impl Programs {
    /// The usual programs, except where another is given.
    pub fn with_overrides(given: ProgramOverrides) -> (r: Programs)
        ensures
            r@ == (ProgramsView {
                grub_editenv: program_or(given.grub_editenv, "grub-editenv"@),
                reboot: program_or(given.reboot, "systemctl"@),
                dd: program_or(given.dd, "dd"@),
                zstd: program_or(given.zstd, "zstd"@),
                mount: program_or(given.mount, "mount"@),
                umount: program_or(given.umount, "umount"@),
            }),
    {
        Programs {
            grub_editenv: choose_program(given.grub_editenv, "grub-editenv"),
            reboot: choose_program(given.reboot, "systemctl"),
            dd: choose_program(given.dd, "dd"),
            zstd: choose_program(given.zstd, "zstd"),
            mount: choose_program(given.mount, "mount"),
            umount: choose_program(given.umount, "umount"),
        }
    }
}

/// The value of a plan.
pub open spec fn planned(r: Result<Vec<Step>, String>) -> Result<Seq<StepView>, Seq<char>> {
    match r {
        Ok(steps) => Ok(steps.deep_view()),
        Err(complaint) => Err(complaint@),
    }
}

} // verus!
