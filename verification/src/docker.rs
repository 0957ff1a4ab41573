//! Commands run inside a runner container, and their output.
use vstd::prelude::*;

use crate::strs::{owned, push_str, replace, replace_spec};
use crate::text::{string_from_bytes, utf8};

verus! {

/// A chunk of output of a command run in a container.
pub enum ContainerCommandOutput {
    StdOut(Vec<u8>),
    StdErr(Vec<u8>),
}

impl ContainerCommandOutput {
    pub open spec fn data(&self) -> Seq<u8> {
        match self {
            ContainerCommandOutput::StdOut(d) => d@,
            ContainerCommandOutput::StdErr(d) => d@,
        }
    }
}

/// All the bytes of the chunks, in order, standard output and error alike.
pub open spec fn all_bytes(chunks: Seq<ContainerCommandOutput>) -> Seq<u8>
    decreases chunks.len(),
{
    if chunks.len() == 0 {
        Seq::empty()
    } else {
        all_bytes(chunks.drop_last()) + chunks.last().data()
    }
}

/// Reading the output of a command as text.
pub trait CCmdOutputString {
    fn to_string(&self) -> Option<String>;
}

impl CCmdOutputString for Vec<ContainerCommandOutput> {
    /// The output as text: the bytes of all chunks, in order, when they are
    /// valid UTF-8.
    fn to_string(&self) -> (r: Option<String>)
        ensures
            r is Some <==> vstd::utf8::valid_utf8(all_bytes(self@)),
            r matches Some(s) ==> utf8(s@) == all_bytes(self@),
    {
        let mut bytes: Vec<u8> = Vec::new();
        let mut i: usize = 0;
        while i < self.len()
            invariant
                i <= self@.len(),
                bytes@ == all_bytes(self@.take(i as int)),
            decreases self@.len() - i,
        {
            let data = match &self[i] {
                ContainerCommandOutput::StdOut(d) => d,
                ContainerCommandOutput::StdErr(d) => d,
            };
            crate::text::push_range(&mut bytes, data.as_slice(), 0, data.len());
            proof {
                assert(data@.subrange(0, data@.len() as int) =~= data@);
                assert(self@.take(i + 1).drop_last() =~= self@.take(i as int));
                assert(self@.take(i + 1).last() == self@[i as int]);
            }
            i = i + 1;
        }
        assert(self@.take(i as int) =~= self@);
        string_from_bytes(bytes)
    }
}

/// Why a runner container could not be used.
#[derive(Debug, Clone, Copy, PartialEq, Eq, Structural)]
pub enum ContainerRetrivalError {
    Error,
    NotFound,
}

impl ContainerRetrivalError {
    /// The HTTP status answered for the error: 500, or 404 for a missing
    /// runner.
    pub fn status_code(&self) -> (r: u16)
        ensures
            *self == ContainerRetrivalError::Error ==> r == 500,
            *self == ContainerRetrivalError::NotFound ==> r == 404,
    {
        match self {
            ContainerRetrivalError::Error => 500,
            ContainerRetrivalError::NotFound => 404,
        }
    }
}

/// A list of commands, each a program and its arguments, run one after the
/// other in a container.
#[derive(Clone)]
pub struct DockerCommand {
    commands: Vec<Vec<String>>,
}

/// The commands as character sequences.
pub open spec fn command_view(c: Seq<Vec<String>>) -> Seq<Seq<Seq<char>>> {
    Seq::new(c.len(), |i: int| Seq::new(c[i]@.len(), |j: int| c[i]@[j]@))
}

impl View for DockerCommand {
    type V = Seq<Seq<Seq<char>>>;

    closed spec fn view(&self) -> Seq<Seq<Seq<char>>> {
        command_view(self.commands@)
    }
}

/// The words of a command as character sequences.
pub open spec fn words_view(words: Seq<&str>) -> Seq<Seq<char>> {
    Seq::new(words.len(), |j: int| words[j]@)
}

impl Default for DockerCommand {
    fn default() -> (r: Self)
        ensures
            r@ == Seq::<Seq<Seq<char>>>::empty(),
    {
        Self::new()
    }
}

impl DockerCommand {
    /// No commands.
    pub fn new() -> (r: Self)
        ensures
            r@ == Seq::<Seq<Seq<char>>>::empty(),
    {
        let r = DockerCommand { commands: Vec::new() };
        assert(r@ =~= Seq::<Seq<Seq<char>>>::empty());
        r
    }

    /// The same commands followed by `command`.
    pub fn cmd(self, command: Vec<&str>) -> (r: Self)
        ensures
            r@ == self@.push(words_view(command@)),
    {
        let mut words: Vec<String> = Vec::new();
        let mut i: usize = 0;
        while i < command.len()
            invariant
                i <= command@.len(),
                words@.len() == i,
                forall|j: int| 0 <= j < i ==> (#[trigger] words@[j])@ == command@[j]@,
            decreases command@.len() - i,
        {
            words.push(owned(command[i]));
            i = i + 1;
        }
        let ghost before = self@;
        let mut commands = self.commands;
        commands.push(words);
        let r = DockerCommand { commands };
        proof {
            assert(command_view(commands@)[before.len() as int] =~= words_view(command@));
            assert(r@ =~= before.push(words_view(command@)));
        }
        r
    }

    /// The commands, each a list of words.
    pub fn commands(&self) -> (r: &Vec<Vec<String>>)
        ensures
            command_view(r@) == self@,
    {
        &self.commands
    }
}

/// The name of the container of the runner `hash`.
pub fn container_name(hash: &str) -> (r: String)
    ensures
        r@ == "runner_"@ + hash@,
{
    let mut r = String::new();
    push_str(&mut r, "runner_");
    push_str(&mut r, hash);
    r
}

/// The command that prints the file at `path`.
pub fn read_file_command(path: &str) -> (r: DockerCommand)
    ensures
        r@ == seq![seq!["cat"@, path@]],
{
    let words = vec!["cat", path];
    assert(words@.len() == 2);
    assert(words_view(words@) =~= seq!["cat"@, path@]);
    let r = DockerCommand::new().cmd(words);
    assert(r@ =~= seq![seq!["cat"@, path@]]);
    r
}

/// The shell line that writes `contents` into the file `path`: an `echo` of
/// the contents between double quotes, with every `"` escaped as `\"`.
pub open spec fn write_file_line(path: Seq<char>, contents: Seq<char>) -> Seq<char> {
    "echo \""@ + replace_spec(contents, "\""@, "\\\""@) + "\" > "@ + path
}

/// The command that writes `contents` into the file `path` through `bash`.
pub fn write_file_command(path: &str, contents: &str) -> (r: DockerCommand)
    ensures
        r@ == seq![seq!["bash"@, "-c"@, write_file_line(path@, contents@)]],
{
    proof {
        reveal_strlit("\"");
    }
    let escaped = replace(contents, "\"", "\\\"");
    let mut line = String::new();
    push_str(&mut line, "echo \"");
    push_str(&mut line, escaped.as_str());
    push_str(&mut line, "\" > ");
    push_str(&mut line, path);
    let words = vec!["bash", "-c", line.as_str()];
    assert(words@.len() == 3);
    assert(words_view(words@) =~= seq!["bash"@, "-c"@, write_file_line(path@, contents@)]);
    let r = DockerCommand::new().cmd(words);
    assert(r@ =~= seq![seq!["bash"@, "-c"@, write_file_line(path@, contents@)]]);
    r
}

/// The command that builds and runs the project in `/host`.
pub fn run_code_command() -> (r: DockerCommand)
    ensures
        r@ == seq![seq!["cargo"@, "run"@, "--manifest-path"@, "/host/Cargo.toml"@]],
{
    let words = vec!["cargo", "run", "--manifest-path", "/host/Cargo.toml"];
    assert(words@.len() == 4);
    assert(words_view(words@) =~= seq!["cargo"@, "run"@, "--manifest-path"@, "/host/Cargo.toml"@]);
    let r = DockerCommand::new().cmd(words);
    assert(r@ =~= seq![seq!["cargo"@, "run"@, "--manifest-path"@, "/host/Cargo.toml"@]]);
    r
}

/// The command that creates the cargo project `host` without version
/// control.
pub fn init_project_command() -> (r: DockerCommand)
    ensures
        r@ == seq![seq!["cargo"@, "init"@, "host"@, "--vcs"@, "none"@]],
{
    let words = vec!["cargo", "init", "host", "--vcs", "none"];
    assert(words@.len() == 5);
    assert(words_view(words@) =~= seq!["cargo"@, "init"@, "host"@, "--vcs"@, "none"@]);
    let r = DockerCommand::new().cmd(words);
    assert(r@ =~= seq![seq!["cargo"@, "init"@, "host"@, "--vcs"@, "none"@]]);
    r
}

} // verus!
