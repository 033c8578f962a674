//! The boundary to the external launcher: the argument lists it is invoked with,
//! and what is read from its output.
use vstd::prelude::*;
use vstd::string::*;
use vstd::utf8::{decode_utf8, valid_utf8};

use crate::address::{
    lemma_ipv4_text_round_trip, resolution, server_text, GameMode, Target, DEFAULT_PORT,
};
use crate::literal::ipv4_of;
use crate::text::{chars_of, num_text, string_of};

verus! {

/// How a call to the launcher can fail.
#[derive(Debug, Clone, Copy, PartialEq, Eq)]
pub enum LauncherError {
    /// The launcher executable is not on the search path.
    LauncherNotFound,
    /// The launcher process could not start or exited abnormally.
    LauncherExecutionError,
    /// The launcher's output is not UTF-8.
    EncodingError,
}

/// What the launcher is asked to launch.
#[derive(Debug, Clone)]
pub struct LaunchParameters {
    /// Folder name in the launcher's instance folder.
    pub instance_id: String,
    pub gamemode: Option<GameMode>,
    /// Account name; without one the launcher picks its default account.
    pub profile: Option<String>,
}

/// A question put to the launcher.
#[derive(Debug, Clone, Copy, PartialEq, Eq)]
pub enum Query {
    DataDirectory,
    ListAccounts,
    Version,
}

pub open spec fn mode_view(g: Option<GameMode>) -> Option<Target> {
    match g {
        Some(m) => Some(m@),
        None => None,
    }
}

pub open spec fn profile_view(p: Option<String>) -> Option<Seq<char>> {
    match p {
        Some(s) => Some(s@),
        None => None,
    }
}

/// The launcher's arguments for a launch, in order: the instance, then the
/// world or server if there is one, then the profile if there is one.
pub open spec fn launch_args(
    instance: Seq<char>,
    mode: Option<Target>,
    profile: Option<Seq<char>>,
) -> Seq<Seq<char>> {
    seq!["--launch"@, instance] + match mode {
        None => Seq::empty(),
        Some(Target::World(w)) => seq!["--world"@, w],
        Some(Target::Server(h, port)) => seq!["--server"@, server_text(h, port)],
    } + match profile {
        None => Seq::empty(),
        Some(p) => seq!["--profile"@, p],
    }
}

pub open spec fn query_args(q: Query) -> Seq<Seq<char>> {
    match q {
        Query::DataDirectory => seq!["--get-directory"@],
        Query::ListAccounts => seq!["--list-accounts"@],
        Query::Version => seq!["--version"@],
    }
}

/// The arguments that launch an instance.
pub fn launch(parameters: LaunchParameters) -> (r: Vec<String>)
    ensures
        r.deep_view() == launch_args(
            parameters.instance_id@,
            mode_view(parameters.gamemode),
            profile_view(parameters.profile),
        ),
{
    let ghost instance = parameters.instance_id@;
    let ghost mode = mode_view(parameters.gamemode);
    let ghost profile = profile_view(parameters.profile);
    let mut args: Vec<String> = Vec::new();
    args.push(String::from_str("--launch"));
    args.push(parameters.instance_id);
    let ghost front = args.deep_view();
    assert(front =~= seq!["--launch"@, instance]);
    let ghost middle: Seq<Seq<char>>;
    match parameters.gamemode {
        Some(GameMode::SinglePlayer { world_name }) => {
            args.push(String::from_str("--world"));
            args.push(world_name);
            proof {
                middle = seq!["--world"@, world_name@];
            }
        },
        Some(GameMode::MultiPlayer(address)) => {
            args.push(String::from_str("--server"));
            args.push(address.to_string());
            proof {
                middle = seq!["--server"@, server_text(address.hostname@, address.port)];
            }
        },
        None => {
            proof {
                middle = Seq::empty();
            }
        },
    }
    assert(args.deep_view() =~= front + middle);
    let ghost before = args.deep_view();
    let ghost last: Seq<Seq<char>>;
    match parameters.profile {
        Some(p) => {
            args.push(String::from_str("--profile"));
            args.push(p);
            proof {
                last = seq!["--profile"@, p@];
            }
        },
        None => {
            proof {
                last = Seq::empty();
            }
        },
    }
    assert(args.deep_view() =~= before + last);
    assert(args.deep_view() =~= launch_args(instance, mode, profile));
    args
}

/// The arguments that put a question to the launcher.
pub fn query_arguments(q: Query) -> (r: Vec<String>)
    ensures
        r.deep_view() == query_args(q),
{
    let arg = match q {
        Query::DataDirectory => String::from_str("--get-directory"),
        Query::ListAccounts => String::from_str("--list-accounts"),
        Query::Version => String::from_str("--version"),
    };
    let mut r: Vec<String> = Vec::new();
    r.push(arg);
    assert(r.deep_view() =~= query_args(q));
    r
}

/// Relies on String::from_utf8: it accepts exactly the valid UTF-8 byte
/// sequences, and the string holds the characters they encode.
#[verifier::external_body]
fn decode(bytes: Vec<u8>) -> (r: Option<String>)
    ensures
        r is Some <==> valid_utf8(bytes@),
        r is Some ==> r->0@ == decode_utf8(bytes@),
{
    String::from_utf8(bytes).ok()
}

/// A character with the Unicode White_Space property.
pub open spec fn is_space(c: char) -> bool {
    let u = c as u32;
    (9 <= u <= 13) || u == 32 || u == 0x85 || u == 0xa0 || u == 0x1680 || (0x2000 <= u <= 0x200a)
        || u == 0x2028 || u == 0x2029 || u == 0x202f || u == 0x205f || u == 0x3000
}

fn is_space_exec(c: char) -> (r: bool)
    ensures
        r == is_space(c),
{
    let u = c as u32;
    (9 <= u && u <= 13) || u == 32 || u == 0x85 || u == 0xa0 || u == 0x1680 || (0x2000 <= u && u
        <= 0x200a) || u == 0x2028 || u == 0x2029 || u == 0x202f || u == 0x205f || u == 0x3000
}

/// The maximal runs of non-space characters of `s`, in order.
pub open spec fn words(s: Seq<char>) -> Seq<Seq<char>>
    decreases s.len(),
{
    if s.len() == 0 {
        Seq::empty()
    } else {
        let w = words(s.drop_last());
        if is_space(s.last()) {
            w
        } else if s.len() >= 2 && !is_space(s[s.len() - 2]) {
            w.update(w.len() - 1, w.last().push(s.last()))
        } else {
            w.push(seq![s.last()])
        }
    }
}

fn split_words(s: &Vec<char>) -> (r: Vec<String>)
    ensures
        r.deep_view() == words(s@),
{
    let n = s.len();
    let mut out: Vec<String> = Vec::new();
    let mut start: usize = 0;
    let mut i: usize = 0;
    while i < n
        invariant
            n == s@.len(),
            start <= i <= n,
            i > 0 && !is_space(s@[i - 1]) ==> words(s@.take(i as int)) == out.deep_view().push(
                s@.subrange(start as int, i as int),
            ),
            !(i > 0 && !is_space(s@[i - 1])) ==> words(s@.take(i as int)) == out.deep_view(),
        decreases n - i,
    {
        let ghost prev = out.deep_view();
        assert(s@.take(i + 1).drop_last() =~= s@.take(i as int));
        let in_word = i > 0 && !is_space_exec(s[i - 1]);
        if is_space_exec(s[i]) {
            if in_word {
                out.push(string_of(s, start, i));
                assert(out.deep_view() =~= prev.push(s@.subrange(start as int, i as int)));
            }
        } else {
            if in_word {
                assert(s@.subrange(start as int, i + 1) =~= s@.subrange(start as int, i as int).push(
                    s@[i as int],
                ));
            } else {
                start = i;
                assert(s@.subrange(start as int, i + 1) =~= seq![s@[i as int]]);
            }
        }
        i += 1;
    }
    assert(s@.take(n as int) =~= s@);
    if n > 0 && !is_space_exec(s[n - 1]) {
        let ghost prev = out.deep_view();
        out.push(string_of(s, start, n));
        assert(out.deep_view() =~= prev.push(s@.subrange(start as int, n as int)));
    }
    out
}

/// What a `--version` answer says once the launcher's name in front is removed.
pub open spec fn version_of(s: Seq<char>) -> Seq<char> {
    let p = "PrismLauncher "@;
    if p.len() <= s.len() && s.take(p.len() as int) == p {
        s.skip(p.len() as int)
    } else {
        s
    }
}

/// The launcher's data directory, from its `--get-directory` output.
pub fn data_directory(stdout: Vec<u8>) -> (r: Result<String, LauncherError>)
    ensures
        r is Ok <==> valid_utf8(stdout@),
        r is Ok ==> r->Ok_0@ == decode_utf8(stdout@),
        r is Err ==> r->Err_0 == LauncherError::EncodingError,
{
    match decode(stdout) {
        Some(s) => Ok(s),
        None => Err(LauncherError::EncodingError),
    }
}

/// The account names, from the launcher's `--list-accounts` output.
pub fn list_accounts(stdout: Vec<u8>) -> (r: Result<Vec<String>, LauncherError>)
    ensures
        r is Ok <==> valid_utf8(stdout@),
        r is Ok ==> r->Ok_0.deep_view() == words(decode_utf8(stdout@)),
        r is Err ==> r->Err_0 == LauncherError::EncodingError,
{
    match decode(stdout) {
        Some(s) => {
            let chars = chars_of(s.as_str());
            Ok(split_words(&chars))
        },
        None => Err(LauncherError::EncodingError),
    }
}

/// The launcher's version, from its `--version` output.
pub fn version(stdout: Vec<u8>) -> (r: Result<String, LauncherError>)
    ensures
        r is Ok <==> valid_utf8(stdout@),
        r is Ok ==> r->Ok_0@ == version_of(decode_utf8(stdout@)),
        r is Err ==> r->Err_0 == LauncherError::EncodingError,
{
    match decode(stdout) {
        Some(s) => {
            let chars = chars_of(s.as_str());
            let prefix = chars_of("PrismLauncher ");
            let n = chars.len();
            let m = prefix.len();
            if m > n {
                return Ok(s);
            }
            let mut i: usize = 0;
            while i < m
                invariant
                    i <= m <= n,
                    m == prefix@.len(),
                    n == chars@.len(),
                    forall|j: int| 0 <= j < i ==> chars@[j] == prefix@[j],
                    valid_utf8(stdout@),
                    s@ == decode_utf8(stdout@),
                    chars@ == s@,
                    prefix@ == "PrismLauncher "@,
                decreases m - i,
            {
                if chars[i] != prefix[i] {
                    assert(chars@.take(m as int)[i as int] != prefix@[i as int]);
                    return Ok(s);
                }
                i += 1;
            }
            assert(chars@.take(m as int) =~= prefix@);
            let rest = string_of(&chars, m, n);
            assert(chars@.subrange(m as int, n as int) =~= chars@.skip(m as int));
            Ok(rest)
        },
        None => Err(LauncherError::EncodingError),
    }
}

/// A bot whose target was resolved in multiplayer mode from a dotted-quad
/// literal is launched with the literal itself, a colon and the default port as
/// its server.
pub proof fn lemma_launch_ipv4_server(instance: Seq<char>, t: Seq<char>)
    requires
        ipv4_of(t) is Some,
    ensures
        launch_args(instance, Some(resolution(true, t)), None) == seq![
            "--launch"@,
            instance,
            "--server"@,
            t + seq![':'] + num_text(DEFAULT_PORT as nat, 10),
        ],
{
    lemma_ipv4_text_round_trip(t);
    assert(launch_args(instance, Some(resolution(true, t)), None) =~= seq![
        "--launch"@,
        instance,
        "--server"@,
        t + seq![':'] + num_text(DEFAULT_PORT as nat, 10),
    ]);
}

/// A bot whose target was resolved in single-player mode is launched with the
/// text as its world.
pub proof fn lemma_launch_world(instance: Seq<char>, t: Seq<char>)
    ensures
        launch_args(instance, Some(resolution(false, t)), None) == seq![
            "--launch"@,
            instance,
            "--world"@,
            t,
        ],
{
    assert(launch_args(instance, Some(resolution(false, t)), None) =~= seq![
        "--launch"@,
        instance,
        "--world"@,
        t,
    ]);
}

} // verus!
