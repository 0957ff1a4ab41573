//! Local cargo runners: their random names, their manifests, and how the
//! failures of their file updates are reported.
use vstd::prelude::*;

use crate::communication::{ActError, RunnerRequestOp};
use crate::strs::{owned, push_char, push_str};
use rand::Rng;

verus! {

/// An ASCII letter or digit.
pub open spec fn is_alphanumeric(b: u8) -> bool {
    (48 <= b <= 57) || (65 <= b <= 90) || (97 <= b <= 122)
}

/// An ASCII letter or digit.
pub open spec fn is_alphanumeric_char(c: char) -> bool {
    ('0' <= c <= '9') || ('A' <= c <= 'Z') || ('a' <= c <= 'z')
}

/// An ASCII lower-case letter or digit.
pub open spec fn is_lower_alphanumeric(c: char) -> bool {
    ('0' <= c <= '9') || ('a' <= c <= 'z')
}

/// Draws `n` characters from `rand`'s `Alphanumeric` distribution with the
/// thread-local generator: each an ASCII letter or digit. Nothing else is
/// promised: the values are random.
#[verifier::external_body]
fn random_alphanumeric(n: usize) -> (r: Vec<u8>)
    ensures
        r@.len() == n,
        forall|i: int| 0 <= i < n ==> is_alphanumeric(#[trigger] r@[i]),
{
    rand::thread_rng().sample_iter(&rand::distributions::Alphanumeric).take(n).collect()
}

/// The character of an ASCII byte.
fn ascii_char(b: u8) -> (c: char)
    requires
        b < 128,
    ensures
        c as u32 == b as u32,
{
    b as char
}

/// A random name of `n` ASCII letters and digits.
pub fn random_hash(n: usize) -> (r: String)
    ensures
        r@.len() == n,
        forall|i: int| 0 <= i < n ==> is_alphanumeric_char(#[trigger] r@[i]),
{
    let bytes = random_alphanumeric(n);
    let mut r = String::new();
    let mut i: usize = 0;
    while i < n
        invariant
            i <= n,
            bytes@.len() == n,
            forall|j: int| 0 <= j < n ==> is_alphanumeric(#[trigger] bytes@[j]),
            r@.len() == i,
            forall|j: int| 0 <= j < i ==> is_alphanumeric_char(#[trigger] r@[j]),
        decreases n - i,
    {
        assert(is_alphanumeric(bytes@[i as int]));
        let c = ascii_char(bytes[i]);
        push_char(&mut r, c);
        i = i + 1;
    }
    r
}

/// The byte of an ASCII letter or digit with upper-case letters made
/// lower-case.
pub open spec fn lower_byte(b: u8) -> u8 {
    if 65 <= b <= 90 {
        (b + 32) as u8
    } else {
        b
    }
}

/// The text of ASCII letters and digits `bytes` in lower case: one
/// character for each byte, upper-case letters turned lower-case.
pub fn lower_hash(bytes: &Vec<u8>) -> (r: String)
    requires
        forall|i: int| 0 <= i < bytes@.len() ==> is_alphanumeric(#[trigger] bytes@[i]),
    ensures
        r@.len() == bytes@.len(),
        forall|i: int| 0 <= i < bytes@.len() ==> #[trigger] r@[i] as u32 == lower_byte(bytes@[i]) as u32,
        forall|i: int| 0 <= i < bytes@.len() ==> is_lower_alphanumeric(#[trigger] r@[i]),
{
    let mut r = String::new();
    let mut i: usize = 0;
    while i < bytes.len()
        invariant
            i <= bytes@.len(),
            forall|j: int| 0 <= j < bytes@.len() ==> is_alphanumeric(#[trigger] bytes@[j]),
            r@.len() == i,
            forall|j: int| 0 <= j < i ==> #[trigger] r@[j] as u32 == lower_byte(bytes@[j]) as u32,
            forall|j: int| 0 <= j < i ==> is_lower_alphanumeric(#[trigger] r@[j]),
        decreases bytes@.len() - i,
    {
        let b = bytes[i];
        assert(is_alphanumeric(bytes@[i as int]));
        let lower = if 65 <= b && b <= 90 {
            b + 32
        } else {
            b
        };
        let c = ascii_char(lower);
        let ghost before = r@;
        push_char(&mut r, c);
        assert(r@ == before.push(c));
        i = i + 1;
    }
    r
}

/// A random runner name: thirty ASCII letters and digits drawn at random,
/// in lower case (see [`lower_hash`]).
pub fn runner_hash() -> (r: String)
    ensures
        r@.len() == 30,
        forall|i: int| 0 <= i < 30 ==> is_lower_alphanumeric(#[trigger] r@[i]),
{
    let bytes = random_alphanumeric(30);
    lower_hash(&bytes)
}

/// Why a runner could not be created.
#[derive(Debug, Clone)]
pub enum RunnerCreateError {
    /// The executable's path could not be read.
    Executable(String),
    /// The executable's path has no parent.
    Parent,
    /// The folder of the runners could not be created.
    Context(String),
    /// The cargo project could not be created.
    Project(String),
}

/// Why a runner could not be deleted.
#[derive(Debug)]
pub enum RunnerDeleteError {
    DeleteFiles(std::io::Error),
}

/// Why a runner's files could not be updated.
#[derive(Debug)]
pub enum RunnerUpdateError {
    /// A file could not be written.
    UpdateFile(std::io::Error),
    /// The dependency list is not valid or not allowed.
    InvalidPackageString,
}

/// How a failed update is reported to the client: a rejected dependency
/// list as invalid TOML, any other failure as an internal error.
pub open spec fn act_error_spec(op: RunnerRequestOp, invalid_packages: bool) -> ActError {
    if op == RunnerRequestOp::UpdateCargo && invalid_packages {
        ActError::InvalidToml
    } else {
        ActError::InternalServerError
    }
}

/// The error answered to a client for a failed update made by `op`.
pub fn act_error(op: &RunnerRequestOp, err: &RunnerUpdateError) -> (r: ActError)
    ensures
        r == act_error_spec(*op, *err is InvalidPackageString),
{
    match op {
        RunnerRequestOp::UpdateCargo => match err {
            RunnerUpdateError::UpdateFile(_) => ActError::InternalServerError,
            RunnerUpdateError::InvalidPackageString => ActError::InvalidToml,
        },
        _ => ActError::InternalServerError,
    }
}

/// The `[package]` section written before a runner's dependencies.
pub open spec fn manifest_header(hash: Seq<char>) -> Seq<char> {
    "\n                [package]\n                name = \"runner_"@ + hash
        + "\"\n                version = \"0.1.0\"\n                edition = \"2021\"\n\n            "@
}

/// The manifest of the runner `hash` with the dependency list `deps`.
pub fn cargo_manifest(hash: &str, deps: &str) -> (r: String)
    ensures
        r@ == manifest_header(hash@) + deps@,
{
    let mut r = String::new();
    push_str(&mut r, "\n                [package]\n                name = \"runner_");
    push_str(&mut r, hash);
    push_str(
        &mut r,
        "\"\n                version = \"0.1.0\"\n                edition = \"2021\"\n\n            ",
    );
    push_str(&mut r, deps);
    r
}

/// The file a runner request writes, relative to the runner's project,
/// and what it writes there; or why the request is refused.
pub open spec fn act_write_spec(
    op: RunnerRequestOp,
    content: Option<Seq<char>>,
    hash: Seq<char>,
    packages_valid: bool,
) -> Result<(Seq<char>, Seq<char>), ActError> {
    match content {
        None => Err(ActError::MissingContent),
        Some(c) => if op == RunnerRequestOp::UploadCode {
            Ok(("src/main.rs"@, c))
        } else if !packages_valid {
            Err(ActError::InvalidToml)
        } else {
            Ok(("Cargo.toml"@, manifest_header(hash) + c))
        },
    }
}

/// What the runner `hash` writes for a request `op` with `content`: a
/// request without content is answered `MissingContent`, whatever its
/// operation; otherwise the program goes into `src/main.rs`, or a
/// dependency list goes after the `[package]` section into `Cargo.toml`,
/// where `packages_valid` tells that the content reads as a table of
/// dependencies (`name = "version"` or `name = { version, features }`),
/// and is answered `InvalidToml` otherwise. A run request with content is
/// not carried out this way.
pub fn act_write(op: &RunnerRequestOp, content: &Option<String>, hash: &str, packages_valid: bool) -> (r:
    Result<(String, String), ActError>)
    requires
        content is None || *op != RunnerRequestOp::RunCode,
    ensures
        match act_write_spec(
            *op,
            match content {
                Some(c) => Some(c@),
                None => None,
            },
            hash@,
            packages_valid,
        ) {
            Ok((path, text)) => r matches Ok((p, t)) && p@ == path && t@ == text,
            Err(e) => r == Err::<(String, String), ActError>(e),
        },
{
    let content = match content {
        Some(c) => c,
        None => return Err(ActError::MissingContent),
    };
    match op {
        RunnerRequestOp::UploadCode => Ok((owned("src/main.rs"), content.clone())),
        _ => if !packages_valid {
            Err(ActError::InvalidToml)
        } else {
            Ok((owned("Cargo.toml"), cargo_manifest(hash, content.as_str())))
        },
    }
}

/// What `{:?}` (the standard `Debug` of `str`) writes for the text `s`: the
/// text between double quotes, with quotes, backslashes and special
/// characters escaped.
pub uninterp spec fn debug_str(s: Seq<char>) -> Seq<char>;

/// Writes `s` with the standard `Debug` formatting of `str`, whose result
/// [`debug_str`] names.
#[verifier::external_body]
fn debug_quoted(s: &str) -> (r: String)
    ensures
        r@ == debug_str(s@),
{
    format!("{:?}", s)
}

/// The words of a shell line: each argument quoted as `Debug` writes it,
/// separated by spaces.
pub open spec fn quoted_args(args: Seq<Seq<char>>) -> Seq<char>
    decreases args.len(),
{
    if args.len() == 0 {
        Seq::empty()
    } else if args.len() == 1 {
        debug_str(args[0])
    } else {
        quoted_args(args.drop_last()) + " "@ + debug_str(args.last())
    }
}

/// The line `bash -c` runs for the program `cmd` with `args`: the program,
/// a space, and the quoted arguments.
pub fn bash_command_line(cmd: &str, args: Vec<&str>) -> (r: String)
    ensures
        r@ == cmd@ + " "@ + quoted_args(args@.map_values(|a: &str| a@)),
{
    let ghost av = args@.map_values(|a: &str| a@);
    let mut joined = String::new();
    let mut i: usize = 0;
    while i < args.len()
        invariant
            i <= args@.len(),
            av == args@.map_values(|a: &str| a@),
            joined@ == quoted_args(av.take(i as int)),
        decreases args@.len() - i,
    {
        let q = debug_quoted(args[i]);
        assert(av.take(i + 1).drop_last() =~= av.take(i as int));
        assert(av.take(i + 1).last() == args@[i as int]@);
        if i == 0 {
            assert(av.take(0) =~= Seq::<Seq<char>>::empty());
            push_str(&mut joined, q.as_str());
            assert(joined@ =~= quoted_args(av.take(1)));
        } else {
            push_str(&mut joined, " ");
            push_str(&mut joined, q.as_str());
        }
        i = i + 1;
    }
    assert(av.take(args@.len() as int) =~= av);
    let mut r = owned(cmd);
    push_str(&mut r, " ");
    push_str(&mut r, joined.as_str());
    r
}


/// A request without content is refused as missing content, whatever its
/// operation; with content, the program goes into `src/main.rs` as it is,
/// and a dependency list goes into `Cargo.toml` after the runner's
/// `[package]` section when it is valid and is refused as invalid TOML
/// when it is not.
pub proof fn law_what_a_request_writes(op: RunnerRequestOp, c: Seq<char>, hash: Seq<char>, valid: bool)
    ensures
        act_write_spec(op, None, hash, valid) == Err::<(Seq<char>, Seq<char>), ActError>(
            ActError::MissingContent,
        ),
        op == RunnerRequestOp::UploadCode ==> act_write_spec(op, Some(c), hash, valid) == Ok::<
            (Seq<char>, Seq<char>),
            ActError,
        >(("src/main.rs"@, c)),
        op == RunnerRequestOp::UpdateCargo && valid ==> act_write_spec(op, Some(c), hash, valid) == Ok::<
            (Seq<char>, Seq<char>),
            ActError,
        >(("Cargo.toml"@, manifest_header(hash) + c)),
        op == RunnerRequestOp::UpdateCargo && !valid ==> act_write_spec(op, Some(c), hash, valid) == Err::<
            (Seq<char>, Seq<char>),
            ActError,
        >(ActError::InvalidToml),
{
}

/// A failed update is reported as invalid TOML only where a dependency
/// list was rejected; every other failure is an internal error, and none
/// is reported as missing content.
pub proof fn law_update_failures(op: RunnerRequestOp, invalid_packages: bool)
    ensures
        act_error_spec(op, invalid_packages) == ActError::InvalidToml <==> (op
            == RunnerRequestOp::UpdateCargo && invalid_packages),
        act_error_spec(op, invalid_packages) != ActError::MissingContent,
{
}

} // verus!
