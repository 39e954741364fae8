//! The protocol between the planning functions of this crate and the program
//! that carries their operations out.
//!
//! A plan never touches the system. It is handed the replies to the
//! operations that were carried out for it so far, oldest first, and answers
//! with the next operation to carry out, or with its result. The caller
//! carries the operation out, adds its reply to the list and asks again.

use vstd::prelude::*;
use vstd::slice::*;
use crate::text::clone_texts;

verus! {

/// One request to the system.
#[derive(Debug, Clone, PartialEq, Eq)]
pub enum Operation {
    /// Run the program named by the first word with the other words as its
    /// arguments, wait for it, and capture both of its output streams.
    Command(Vec<String>),
    /// As `Command`, with the second text written to the program's input.
    CommandWithInput(Vec<String>, String),
    /// Whether anything exists at the path.
    PathExists(String),
    /// The names of the entries of the directory.
    ListDirectory(String),
    /// The source names of the file systems mounted at this moment.
    MountedSources,
    /// Whole seconds since the Unix epoch.
    UnixTime,
    /// Copy the file `from` to `to`, replacing it.
    CopyFile { from: String, to: String },
    /// The length of the file in bytes.
    FileLength(String),
    /// Create the directory and its missing parents.
    CreateDirectories(String),
    /// The content of the file as text.
    ReadFile(String),
    /// Create or truncate the file, write `content` and flush it to the
    /// device.
    WriteFile { path: String, content: String },
    /// Move `from` over `to` in one step.
    Rename { from: String, to: String },
}

/// What an `Operation` is, over characters.
pub enum OperationView {
    Command(Seq<Seq<char>>),
    CommandWithInput(Seq<Seq<char>>, Seq<char>),
    PathExists(Seq<char>),
    ListDirectory(Seq<char>),
    MountedSources,
    UnixTime,
    CopyFile { from: Seq<char>, to: Seq<char> },
    FileLength(Seq<char>),
    CreateDirectories(Seq<char>),
    ReadFile(Seq<char>),
    WriteFile { path: Seq<char>, content: Seq<char> },
    Rename { from: Seq<char>, to: Seq<char> },
}

impl DeepView for Operation {
    type V = OperationView;

    open spec fn deep_view(&self) -> OperationView {
        match self {
            Operation::Command(words) => OperationView::Command(words.deep_view()),
            Operation::CommandWithInput(words, input) => OperationView::CommandWithInput(
                words.deep_view(),
                input@,
            ),
            Operation::PathExists(path) => OperationView::PathExists(path@),
            Operation::ListDirectory(path) => OperationView::ListDirectory(path@),
            Operation::MountedSources => OperationView::MountedSources,
            Operation::UnixTime => OperationView::UnixTime,
            Operation::CopyFile { from, to } => OperationView::CopyFile { from: from@, to: to@ },
            Operation::FileLength(path) => OperationView::FileLength(path@),
            Operation::CreateDirectories(path) => OperationView::CreateDirectories(path@),
            Operation::ReadFile(path) => OperationView::ReadFile(path@),
            Operation::WriteFile { path, content } => OperationView::WriteFile {
                path: path@,
                content: content@,
            },
            Operation::Rename { from, to } => OperationView::Rename { from: from@, to: to@ },
        }
    }
}

impl View for Operation {
    type V = OperationView;

    open spec fn view(&self) -> OperationView {
        self.deep_view()
    }
}

/// The system's answer to one `Operation`.
#[derive(Debug, Clone, PartialEq, Eq)]
pub enum Reply {
    /// A command ran and ended. `stdout` and `stderr` hold what it wrote,
    /// with a replacement character for each malformed part;
    /// `stdout_is_utf8` says that its output held no such part.
    Exited { success: bool, stdout: String, stderr: String, stdout_is_utf8: bool },
    /// Answer to `PathExists`.
    Flag(bool),
    /// Answer to `ListDirectory` and `MountedSources`.
    Names(Vec<String>),
    /// Answer to `UnixTime` and `FileLength`.
    Number(u64),
    /// Answer to `ReadFile`.
    Text(String),
    /// The operation was carried out and has nothing to report.
    Finished,
    /// The system refused the operation. `message` is its diagnostic;
    /// `already_exists` says that it refused because the target exists.
    Failed { already_exists: bool, message: String },
}

/// What a `Reply` is, over characters.
pub enum ReplyView {
    Exited { success: bool, stdout: Seq<char>, stderr: Seq<char>, stdout_is_utf8: bool },
    Flag(bool),
    Names(Seq<Seq<char>>),
    Number(u64),
    Text(Seq<char>),
    Finished,
    Failed { already_exists: bool, message: Seq<char> },
}

impl DeepView for Reply {
    type V = ReplyView;

    open spec fn deep_view(&self) -> ReplyView {
        match self {
            Reply::Exited { success, stdout, stderr, stdout_is_utf8 } => ReplyView::Exited {
                success: *success,
                stdout: stdout@,
                stderr: stderr@,
                stdout_is_utf8: *stdout_is_utf8,
            },
            Reply::Flag(flag) => ReplyView::Flag(*flag),
            Reply::Names(names) => ReplyView::Names(names.deep_view()),
            Reply::Number(number) => ReplyView::Number(*number),
            Reply::Text(text) => ReplyView::Text(text@),
            Reply::Finished => ReplyView::Finished,
            Reply::Failed { already_exists, message } => ReplyView::Failed {
                already_exists: *already_exists,
                message: message@,
            },
        }
    }
}

impl View for Reply {
    type V = ReplyView;

    open spec fn view(&self) -> ReplyView {
        self.deep_view()
    }
}

/// Where a plan stands after the replies it was handed.
#[derive(Debug, Clone, PartialEq, Eq)]
pub enum Progress<T, E> {
    /// The replies do not reach to the end: this operation is to be carried
    /// out next, and its reply added to them.
    Run(Operation),
    /// The plan succeeded with this value, having read this many replies.
    Done(T, usize),
    /// The plan failed with this error, having read this many replies.
    Failed(E, usize),
}

/// What a `Progress` is, over the models of its value and error.
pub enum ProgressView<T, E> {
    Run(OperationView),
    Done(T, int),
    Failed(E, int),
}

impl<T: DeepView, E: DeepView> DeepView for Progress<T, E> {
    type V = ProgressView<T::V, E::V>;

    open spec fn deep_view(&self) -> ProgressView<T::V, E::V> {
        match self {
            Progress::Run(operation) => ProgressView::Run(operation@),
            Progress::Done(value, used) => ProgressView::Done(value.deep_view(), *used as int),
            Progress::Failed(error, used) => ProgressView::Failed(error.deep_view(), *used as int),
        }
    }
}

impl<T: DeepView, E: DeepView> View for Progress<T, E> {
    type V = ProgressView<T::V, E::V>;

    open spec fn view(&self) -> ProgressView<T::V, E::V> {
        self.deep_view()
    }
}

impl<T, E> ProgressView<T, E> {
    /// Number of replies that a finished plan has read; none while it asks
    /// for an operation.
    pub open spec fn used(self) -> int {
        match self {
            ProgressView::Run(_) => 0,
            ProgressView::Done(_, used) => used,
            ProgressView::Failed(_, used) => used,
        }
    }

    /// The plan has read no more replies than the `available` ones.
    pub open spec fn within(self, available: int) -> bool {
        0 <= self.used() <= available
    }

    /// The same progress for a plan that had read `before` replies before
    /// this one began.
    pub open spec fn after(self, before: int) -> Self {
        match self {
            ProgressView::Run(operation) => ProgressView::Run(operation),
            ProgressView::Done(value, used) => ProgressView::Done(value, before + used),
            ProgressView::Failed(error, used) => ProgressView::Failed(error, before + used),
        }
    }
}

impl<T: DeepView, E: DeepView> Progress<T, E> {
    /// The same progress for a plan that had read `before` replies before
    /// this one began.
    pub(crate) fn after(self, before: usize) -> (r: Self)
        requires
            self@.used() + before <= usize::MAX,
        ensures
            r@ == self@.after(before as int),
    {
        match self {
            Progress::Run(operation) => Progress::Run(operation),
            Progress::Done(value, used) => Progress::Done(value, before + used),
            Progress::Failed(error, used) => Progress::Failed(error, before + used),
        }
    }
}

/// The model of a result: that of its value, or that of its error.
pub open spec fn result_view<T: DeepView, E: DeepView>(r: Result<T, E>) -> Result<T::V, E::V> {
    match r {
        Ok(value) => Ok(value.deep_view()),
        Err(error) => Err(error.deep_view()),
    }
}

/// Pushing an item onto a list pushes its model onto the list's model.
pub proof fn lemma_push_deep_view<T: DeepView>(list: Seq<T>, item: T)
    ensures
        Seq::new(list.push(item).len(), |i: int| list.push(item)[i].deep_view()) == Seq::new(
            list.len(),
            |i: int| list[i].deep_view(),
        ).push(item.deep_view()),
{
    assert(Seq::new(list.push(item).len(), |i: int| list.push(item)[i].deep_view()) =~= Seq::new(
        list.len(),
        |i: int| list[i].deep_view(),
    ).push(item.deep_view()));
}

/// Why the system did not carry an operation out.
#[derive(Debug, Clone, PartialEq, Eq)]
pub struct Failure {
    /// The target of the operation exists already.
    pub already_exists: bool,
    /// The system's diagnostic.
    pub message: String,
}

/// What a `Failure` is, over characters.
pub struct FailureView {
    pub already_exists: bool,
    pub message: Seq<char>,
}

impl DeepView for Failure {
    type V = FailureView;

    open spec fn deep_view(&self) -> FailureView {
        FailureView { already_exists: self.already_exists, message: self.message@ }
    }
}

impl View for Failure {
    type V = FailureView;

    open spec fn view(&self) -> FailureView {
        self.deep_view()
    }
}

/// What a command that ran has left behind.
#[derive(Debug, Clone, PartialEq, Eq)]
pub struct CommandOutput {
    /// The command ended with status zero.
    pub success: bool,
    /// What it wrote to its standard output.
    pub stdout: String,
    /// What it wrote to its standard error.
    pub stderr: String,
    /// Its standard output was well-formed UTF-8.
    pub stdout_is_utf8: bool,
}

/// What a `CommandOutput` is, over characters.
pub struct CommandOutputView {
    pub success: bool,
    pub stdout: Seq<char>,
    pub stderr: Seq<char>,
    pub stdout_is_utf8: bool,
}

impl DeepView for CommandOutput {
    type V = CommandOutputView;

    open spec fn deep_view(&self) -> CommandOutputView {
        CommandOutputView {
            success: self.success,
            stdout: self.stdout@,
            stderr: self.stderr@,
            stdout_is_utf8: self.stdout_is_utf8,
        }
    }
}

impl View for CommandOutput {
    type V = CommandOutputView;

    open spec fn view(&self) -> CommandOutputView {
        self.deep_view()
    }
}

/// The diagnostic of a reply that does not answer the operation it stands
/// for.
pub open spec fn unexpected_reply() -> Seq<char> {
    "unexpected reply"@
}

/// The failure that `reply` stands for where it is not the answer that an
/// operation expects: its own, or a reply of another kind than expected.
pub open spec fn failure_of(reply: ReplyView) -> FailureView {
    match reply {
        ReplyView::Failed { already_exists, message } => FailureView { already_exists, message },
        _ => FailureView { already_exists: false, message: unexpected_reply() },
    }
}

/// Plan of one operation whose answer `read` takes from a reply: ask for the
/// operation while there is no reply, then succeed with what `read` takes
/// from the first reply, or fail with the failure that the reply stands for.
pub open spec fn operation_plan<T>(
    operation: OperationView,
    read: spec_fn(ReplyView) -> Option<T>,
    replies: Seq<ReplyView>,
) -> ProgressView<T, FailureView> {
    if replies.len() == 0 {
        ProgressView::Run(operation)
    } else {
        match read(replies[0]) {
            Some(value) => ProgressView::Done(value, 1),
            None => ProgressView::Failed(failure_of(replies[0]), 1),
        }
    }
}

/// What a command has left behind, where `reply` is that of a command that ran.
pub open spec fn read_exited(reply: ReplyView) -> Option<CommandOutputView> {
    match reply {
        ReplyView::Exited { success, stdout, stderr, stdout_is_utf8 } => Some(
            CommandOutputView { success, stdout, stderr, stdout_is_utf8 },
        ),
        _ => None,
    }
}

/// The answer, where `reply` answers yes or no.
pub open spec fn read_flag(reply: ReplyView) -> Option<bool> {
    match reply {
        ReplyView::Flag(flag) => Some(flag),
        _ => None,
    }
}

/// The names, where `reply` is a list of names.
pub open spec fn read_names(reply: ReplyView) -> Option<Seq<Seq<char>>> {
    match reply {
        ReplyView::Names(names) => Some(names),
        _ => None,
    }
}

/// The number, where `reply` is a number.
pub open spec fn read_number(reply: ReplyView) -> Option<u64> {
    match reply {
        ReplyView::Number(number) => Some(number),
        _ => None,
    }
}

/// The text, where `reply` is the content of a file.
pub open spec fn read_text(reply: ReplyView) -> Option<Seq<char>> {
    match reply {
        ReplyView::Text(text) => Some(text),
        _ => None,
    }
}

/// Nothing, where `reply` says that the operation was carried out.
pub open spec fn read_finished(reply: ReplyView) -> Option<()> {
    match reply {
        ReplyView::Finished => Some(()),
        _ => None,
    }
}

/// Plan of running the command `words`.
pub open spec fn command_plan(words: Seq<Seq<char>>, replies: Seq<ReplyView>) -> ProgressView<
    CommandOutputView,
    FailureView,
> {
    operation_plan(OperationView::Command(words), |r: ReplyView| read_exited(r), replies)
}

/// Plan of running the command `words` with `input` on its standard input.
pub open spec fn command_with_input_plan(
    words: Seq<Seq<char>>,
    input: Seq<char>,
    replies: Seq<ReplyView>,
) -> ProgressView<CommandOutputView, FailureView> {
    operation_plan(
        OperationView::CommandWithInput(words, input),
        |r: ReplyView| read_exited(r),
        replies,
    )
}

/// Plan of asking whether anything exists at `path`.
pub open spec fn path_exists_plan(path: Seq<char>, replies: Seq<ReplyView>) -> ProgressView<
    bool,
    FailureView,
> {
    operation_plan(OperationView::PathExists(path), |r: ReplyView| read_flag(r), replies)
}

/// Plan of asking for the names of the entries of the directory `path`.
pub open spec fn list_directory_plan(path: Seq<char>, replies: Seq<ReplyView>) -> ProgressView<
    Seq<Seq<char>>,
    FailureView,
> {
    operation_plan(OperationView::ListDirectory(path), |r: ReplyView| read_names(r), replies)
}

/// Plan of asking for the sources of the mounted file systems.
pub open spec fn mounted_sources_plan(replies: Seq<ReplyView>) -> ProgressView<
    Seq<Seq<char>>,
    FailureView,
> {
    operation_plan(OperationView::MountedSources, |r: ReplyView| read_names(r), replies)
}

/// Plan of asking for the time.
pub open spec fn unix_time_plan(replies: Seq<ReplyView>) -> ProgressView<u64, FailureView> {
    operation_plan(OperationView::UnixTime, |r: ReplyView| read_number(r), replies)
}

/// Plan of copying the file `from` to `to`.
pub open spec fn copy_file_plan(
    from: Seq<char>,
    to: Seq<char>,
    replies: Seq<ReplyView>,
) -> ProgressView<(), FailureView> {
    operation_plan(OperationView::CopyFile { from, to }, |r: ReplyView| read_finished(r), replies)
}

/// Plan of asking for the length of the file `path`.
pub open spec fn file_length_plan(path: Seq<char>, replies: Seq<ReplyView>) -> ProgressView<
    u64,
    FailureView,
> {
    operation_plan(OperationView::FileLength(path), |r: ReplyView| read_number(r), replies)
}

/// Plan of creating the directory `path`.
pub open spec fn create_directories_plan(
    path: Seq<char>,
    replies: Seq<ReplyView>,
) -> ProgressView<(), FailureView> {
    operation_plan(
        OperationView::CreateDirectories(path),
        |r: ReplyView| read_finished(r),
        replies,
    )
}

/// Plan of reading the file `path`.
pub open spec fn read_file_plan(path: Seq<char>, replies: Seq<ReplyView>) -> ProgressView<
    Seq<char>,
    FailureView,
> {
    operation_plan(OperationView::ReadFile(path), |r: ReplyView| read_text(r), replies)
}

/// Plan of writing `content` to the file `path`.
pub open spec fn write_file_plan(
    path: Seq<char>,
    content: Seq<char>,
    replies: Seq<ReplyView>,
) -> ProgressView<(), FailureView> {
    operation_plan(
        OperationView::WriteFile { path, content },
        |r: ReplyView| read_finished(r),
        replies,
    )
}

/// Plan of moving the file `from` over `to`.
pub open spec fn rename_plan(
    from: Seq<char>,
    to: Seq<char>,
    replies: Seq<ReplyView>,
) -> ProgressView<(), FailureView> {
    operation_plan(OperationView::Rename { from, to }, |r: ReplyView| read_finished(r), replies)
}

/// The replies that follow the first `used` ones.
pub(crate) fn rest(replies: &[Reply], used: usize) -> (r: &[Reply])
    requires
        used <= replies.len(),
    ensures
        r.deep_view() == replies.deep_view().skip(used as int),
        r.len() == replies.len() - used,
{
    let r = slice_subrange(replies, used, replies.len());
    assert(r.deep_view() =~= replies.deep_view().skip(used as int));
    r
}

/// The texts of `parts`, each as a text of its own.
pub fn words(parts: &[&str]) -> (r: Vec<String>)
    ensures
        r.deep_view() == parts.deep_view(),
{
    let mut r: Vec<String> = Vec::new();
    let mut i: usize = 0;
    while i < parts.len()
        invariant
            i <= parts.len(),
            r.len() == i,
            forall|j: int| 0 <= j < i ==> r[j]@ == parts[j]@,
        decreases parts.len() - i,
    {
        r.push(parts[i].to_owned());
        i += 1;
    }
    assert(r.deep_view() =~= parts.deep_view());
    r
}

/// The failure that `reply` stands for where it is not the answer expected.
pub fn failure(reply: &Reply) -> (r: Failure)
    ensures
        r@ == failure_of(reply@),
{
    match reply {
        Reply::Failed { already_exists, message } => Failure {
            already_exists: *already_exists,
            message: message.clone(),
        },
        _ => Failure { already_exists: false, message: "unexpected reply".to_owned() },
    }
}

/// Runs the command `words`: its output once it has ended, whatever its
/// exit status; a failure where it could not be run.
pub fn run_command(words: Vec<String>, replies: &[Reply]) -> (r: Progress<CommandOutput, Failure>)
    ensures
        r@ == command_plan(words.deep_view(), replies.deep_view()),
{
    if replies.len() == 0 {
        return Progress::Run(Operation::Command(words));
    }
    match &replies[0] {
        Reply::Exited { success, stdout, stderr, stdout_is_utf8 } => Progress::Done(
            CommandOutput {
                success: *success,
                stdout: stdout.clone(),
                stderr: stderr.clone(),
                stdout_is_utf8: *stdout_is_utf8,
            },
            1,
        ),
        other => Progress::Failed(failure(other), 1),
    }
}

/// Runs the command `words` with `input` on its standard input.
pub fn run_command_with_input(words: Vec<String>, input: String, replies: &[Reply]) -> (r:
    Progress<CommandOutput, Failure>)
    ensures
        r@ == command_with_input_plan(words.deep_view(), input@, replies.deep_view()),
{
    if replies.len() == 0 {
        return Progress::Run(Operation::CommandWithInput(words, input));
    }
    match &replies[0] {
        Reply::Exited { success, stdout, stderr, stdout_is_utf8 } => Progress::Done(
            CommandOutput {
                success: *success,
                stdout: stdout.clone(),
                stderr: stderr.clone(),
                stdout_is_utf8: *stdout_is_utf8,
            },
            1,
        ),
        other => Progress::Failed(failure(other), 1),
    }
}

/// Asks whether anything exists at `path`.
pub fn path_exists(path: &str, replies: &[Reply]) -> (r: Progress<bool, Failure>)
    ensures
        r@ == path_exists_plan(path@, replies.deep_view()),
{
    if replies.len() == 0 {
        return Progress::Run(Operation::PathExists(path.to_owned()));
    }
    match &replies[0] {
        Reply::Flag(flag) => Progress::Done(*flag, 1),
        other => Progress::Failed(failure(other), 1),
    }
}

/// Asks for the names of the entries of the directory `path`.
pub fn list_directory(path: &str, replies: &[Reply]) -> (r: Progress<Vec<String>, Failure>)
    ensures
        r@ == list_directory_plan(path@, replies.deep_view()),
{
    if replies.len() == 0 {
        return Progress::Run(Operation::ListDirectory(path.to_owned()));
    }
    match &replies[0] {
        Reply::Names(names) => Progress::Done(clone_texts(names.as_slice()), 1),
        other => Progress::Failed(failure(other), 1),
    }
}

/// Asks for the source names of the file systems mounted now.
pub fn mounted_sources(replies: &[Reply]) -> (r: Progress<Vec<String>, Failure>)
    ensures
        r@ == mounted_sources_plan(replies.deep_view()),
{
    if replies.len() == 0 {
        return Progress::Run(Operation::MountedSources);
    }
    match &replies[0] {
        Reply::Names(names) => Progress::Done(clone_texts(names.as_slice()), 1),
        other => Progress::Failed(failure(other), 1),
    }
}

/// Asks for the time in whole seconds since the Unix epoch.
pub fn unix_time(replies: &[Reply]) -> (r: Progress<u64, Failure>)
    ensures
        r@ == unix_time_plan(replies.deep_view()),
{
    if replies.len() == 0 {
        return Progress::Run(Operation::UnixTime);
    }
    match &replies[0] {
        Reply::Number(number) => Progress::Done(*number, 1),
        other => Progress::Failed(failure(other), 1),
    }
}

/// Copies the file `from` to `to`.
pub fn copy_file(from: &str, to: &str, replies: &[Reply]) -> (r: Progress<(), Failure>)
    ensures
        r@ == copy_file_plan(from@, to@, replies.deep_view()),
{
    if replies.len() == 0 {
        return Progress::Run(Operation::CopyFile { from: from.to_owned(), to: to.to_owned() });
    }
    match &replies[0] {
        Reply::Finished => Progress::Done((), 1),
        other => Progress::Failed(failure(other), 1),
    }
}

/// Asks for the length in bytes of the file `path`.
pub fn file_length(path: &str, replies: &[Reply]) -> (r: Progress<u64, Failure>)
    ensures
        r@ == file_length_plan(path@, replies.deep_view()),
{
    if replies.len() == 0 {
        return Progress::Run(Operation::FileLength(path.to_owned()));
    }
    match &replies[0] {
        Reply::Number(number) => Progress::Done(*number, 1),
        other => Progress::Failed(failure(other), 1),
    }
}

/// Creates the directory `path` and its missing parents.
pub fn create_directories(path: &str, replies: &[Reply]) -> (r: Progress<(), Failure>)
    ensures
        r@ == create_directories_plan(path@, replies.deep_view()),
{
    if replies.len() == 0 {
        return Progress::Run(Operation::CreateDirectories(path.to_owned()));
    }
    match &replies[0] {
        Reply::Finished => Progress::Done((), 1),
        other => Progress::Failed(failure(other), 1),
    }
}

/// Reads the file `path` as text.
pub fn read_file(path: &str, replies: &[Reply]) -> (r: Progress<String, Failure>)
    ensures
        r@ == read_file_plan(path@, replies.deep_view()),
{
    if replies.len() == 0 {
        return Progress::Run(Operation::ReadFile(path.to_owned()));
    }
    match &replies[0] {
        Reply::Text(text) => Progress::Done(text.clone(), 1),
        other => Progress::Failed(failure(other), 1),
    }
}

/// Writes `content` to the file `path` and flushes it.
pub fn write_file(path: &str, content: &str, replies: &[Reply]) -> (r: Progress<(), Failure>)
    ensures
        r@ == write_file_plan(path@, content@, replies.deep_view()),
{
    if replies.len() == 0 {
        return Progress::Run(
            Operation::WriteFile { path: path.to_owned(), content: content.to_owned() },
        );
    }
    match &replies[0] {
        Reply::Finished => Progress::Done((), 1),
        other => Progress::Failed(failure(other), 1),
    }
}

/// Moves the file `from` over `to`.
pub fn rename(from: &str, to: &str, replies: &[Reply]) -> (r: Progress<(), Failure>)
    ensures
        r@ == rename_plan(from@, to@, replies.deep_view()),
{
    if replies.len() == 0 {
        return Progress::Run(Operation::Rename { from: from.to_owned(), to: to.to_owned() });
    }
    match &replies[0] {
        Reply::Finished => Progress::Done((), 1),
        other => Progress::Failed(failure(other), 1),
    }
}

} // verus!
