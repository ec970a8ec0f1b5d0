//! The command line: `bluedot ingest <source> [flags]`, parsed by hand.
//!
//! ```text
//! bluedot ingest acs --indicator B01003_001 --vintage 2021 --vintage 2023 [--out data]
//! bluedot ingest pep --vintage 2022 --vintage 2023 [--out data]
//! bluedot ingest echo [--naics 518210] [--out data]
//! bluedot ingest pwc [--out data]
//! ```

use vstd::prelude::*;

use crate::error::{Error, ErrorModel};
use crate::number::{parse_u16, parse_u16_spec};
use crate::text::{
    chars_of, debug_text, decimal, push_decimal, push_str, same_text, str_debug, string_of,
};

verus! {

pub const USAGE: &'static str = "usage:
  bluedot ingest acs --indicator <TABLE_VAR> --vintage <YEAR> [--vintage <YEAR>...] [--out <DIR>]
  bluedot ingest pep --vintage <YEAR> [--vintage <YEAR>...] [--out <DIR>]
  bluedot ingest echo [--naics <CODE>] [--out <DIR>]         # snapshot-dated; default NAICS 518210
  bluedot ingest pwc [--out <DIR>]                           # Prince William County VA layers; snapshot-dated

acs/pep write <DIR>/facts/<vintage>.jsonl + <DIR>/entities/<vintage>.jsonl;
echo writes <DIR>/entities/<vintage>.jsonl + <DIR>/claims/<vintage>.jsonl
(default DIR: data). Everything is fetched and conformed before any write.
`acs` needs CENSUS_API_KEY in the environment or ./.env; `pep` reads public
files and needs no key.";

/// What the command line asks for.
#[derive(Debug)]
pub enum Command {
    Usage,
    IngestAcs { indicator: String, vintages: Vec<u16>, out_dir: String },
    IngestPep { vintages: Vec<u16>, out_dir: String },
    IngestEcho { naics: String, out_dir: String },
    IngestPwc { out_dir: String },
}

pub enum CommandView {
    Usage,
    IngestAcs { indicator: Seq<char>, vintages: Seq<u16>, out_dir: Seq<char> },
    IngestPep { vintages: Seq<u16>, out_dir: Seq<char> },
    IngestEcho { naics: Seq<char>, out_dir: Seq<char> },
    IngestPwc { out_dir: Seq<char> },
}

impl View for Command {
    type V = CommandView;

    open spec fn view(&self) -> CommandView {
        match self {
            Command::Usage => CommandView::Usage,
            Command::IngestAcs { indicator, vintages, out_dir } => CommandView::IngestAcs {
                indicator: indicator@,
                vintages: vintages@,
                out_dir: out_dir@,
            },
            Command::IngestPep { vintages, out_dir } => CommandView::IngestPep {
                vintages: vintages@,
                out_dir: out_dir@,
            },
            Command::IngestEcho { naics, out_dir } => CommandView::IngestEcho {
                naics: naics@,
                out_dir: out_dir@,
            },
            Command::IngestPwc { out_dir } => CommandView::IngestPwc { out_dir: out_dir@ },
        }
    }
}

/// The flags read so far.
pub struct Flags {
    pub indicator: Option<Seq<char>>,
    pub vintages: Seq<u16>,
    pub out_dir: Seq<char>,
    pub naics: Seq<char>,
}

/// Before any flag: no indicator, no vintage, output under `data`, NAICS
/// 518210 (data processing and hosting).
pub open spec fn initial_flags() -> Flags {
    Flags { indicator: None, vintages: Seq::empty(), out_dir: "data"@, naics: "518210"@ }
}

pub open spec fn is_source(s: Seq<char>) -> bool {
    s == "acs"@ || s == "pep"@ || s == "echo"@ || s == "pwc"@
}

/// A snapshot-dated source: its vintage is the day it was fetched.
pub open spec fn snapshot_dated(s: Seq<char>) -> bool {
    s == "echo"@ || s == "pwc"@
}

/// One `flag value` pair read for `ingest source`; an error is the message
/// shown above the usage text.
pub open spec fn apply_flag(source: Seq<char>, flag: Seq<char>, value: Seq<char>, f: Flags) -> Result<
    Flags,
    Seq<char>,
> {
    if flag == "--indicator"@ && source == "acs"@ {
        Ok(Flags { indicator: Some(value), ..f })
    } else if flag == "--naics"@ && source == "echo"@ {
        Ok(Flags { naics: value, ..f })
    } else if flag == "--vintage"@ && snapshot_dated(source) {
        Err("snapshot-dated sources take no --vintage"@)
    } else if flag == "--vintage"@ {
        match parse_u16_spec(value) {
            None => Err("--vintage "@ + str_debug(value) + " is not a year"@),
            Some(y) => if f.vintages.contains(y) {
                Err("--vintage "@ + decimal(y as nat) + " given twice"@)
            } else {
                Ok(Flags { vintages: f.vintages.push(y), ..f })
            },
        }
    } else if flag == "--out"@ {
        Ok(Flags { out_dir: value, ..f })
    } else {
        Err("unknown flag "@ + str_debug(flag) + " for `ingest "@ + source + "`"@)
    }
}

/// The flags after the first `n` `flag value` pairs of `rest`; a flag with
/// nothing after it needs a value.
pub open spec fn flags_after(source: Seq<char>, rest: Seq<Seq<char>>, n: nat) -> Result<
    Flags,
    Seq<char>,
>
    decreases n,
{
    if n == 0 {
        Ok(initial_flags())
    } else {
        match flags_after(source, rest, (n - 1) as nat) {
            Err(m) => Err(m),
            Ok(f) => {
                let k = 2 * (n - 1);
                if k + 1 >= rest.len() {
                    Err(rest[k] + " needs a value"@)
                } else {
                    apply_flag(source, rest[k], rest[k + 1], f)
                }
            },
        }
    }
}

/// The number of `flag value` pairs in `rest`, the last one perhaps without
/// its value.
pub open spec fn pair_count(rest: Seq<Seq<char>>) -> nat {
    ((rest.len() + 1) / 2) as nat
}

/// What the arguments (without the program name) ask for; an error is the
/// message shown above the usage text.
pub open spec fn command_of(args: Seq<Seq<char>>) -> Result<CommandView, Seq<char>> {
    if args.len() < 2 {
        Ok(CommandView::Usage)
    } else if !(args[0] == "ingest"@ && is_source(args[1])) {
        Err("unknown command "@ + str_debug(args[0]) + " "@ + str_debug(args[1]))
    } else {
        let source = args[1];
        let rest = args.subrange(2, args.len() as int);
        match flags_after(source, rest, pair_count(rest)) {
            Err(m) => Err(m),
            Ok(f) => if source == "echo"@ {
                Ok(CommandView::IngestEcho { naics: f.naics, out_dir: f.out_dir })
            } else if source == "pwc"@ {
                Ok(CommandView::IngestPwc { out_dir: f.out_dir })
            } else if f.vintages.len() == 0 {
                Err("at least one --vintage is required"@)
            } else if source == "acs"@ {
                match f.indicator {
                    None => Err("--indicator is required"@),
                    Some(ind) => Ok(
                        CommandView::IngestAcs { indicator: ind, vintages: f.vintages, out_dir: f.out_dir },
                    ),
                }
            } else {
                Ok(CommandView::IngestPep { vintages: f.vintages, out_dir: f.out_dir })
            },
        }
    }
}

/// The usage error: the message, a line break, then the usage text.
pub open spec fn usage_error(msg: Seq<char>) -> ErrorModel {
    ErrorModel::Usage(msg + "\n"@ + USAGE@)
}


/// The arguments as texts.
pub open spec fn args_view(args: Seq<String>) -> Seq<Seq<char>> {
    args.map_values(|a: String| a@)
}

/// The flags being read.
struct FlagState {
    indicator: Option<String>,
    vintages: Vec<u16>,
    out_dir: String,
    naics: String,
}

impl View for FlagState {
    type V = Flags;

    closed spec fn view(&self) -> Flags {
        Flags {
            indicator: crate::fact::opt_text(self.indicator),
            vintages: self.vintages@,
            out_dir: self.out_dir@,
            naics: self.naics@,
        }
    }
}

/// `usage_error` computed.
fn usage(msg: String) -> (e: Error)
    ensures
        e@ == usage_error(msg@),
{
    let mut m = msg;
    push_str(&mut m, "\n");
    push_str(&mut m, USAGE);
    Error::Usage(m)
}

/// `v` holds `y`.
fn contains_year(v: &Vec<u16>, y: u16) -> (r: bool)
    ensures
        r == v@.contains(y),
{
    let mut j: usize = 0;
    while j < v.len()
        invariant
            j <= v@.len(),
            forall|k: int| 0 <= k < j ==> v@[k] != y,
        decreases v.len() - j,
    {
        if v[j] == y {
            proof {
                assert(v@[j as int] == y);
            }
            return true;
        }
        j = j + 1;
    }
    false
}

/// `apply_flag` computed.
fn apply_flag_of(source: &str, flag: &String, value: &String, st: FlagState) -> (r: Result<
    FlagState,
    String,
>)
    ensures
        match apply_flag(source@, flag@, value@, st@) {
            Ok(f) => r matches Ok(x) && x@ == f,
            Err(m) => r matches Err(x) && x@ == m,
        },
{
    let mut st = st;
    let snapshot = same_text(source, "echo") || same_text(source, "pwc");
    if same_text(flag.as_str(), "--indicator") && same_text(source, "acs") {
        st.indicator = Some(string_of(value.as_str()));
        Ok(st)
    } else if same_text(flag.as_str(), "--naics") && same_text(source, "echo") {
        st.naics = string_of(value.as_str());
        Ok(st)
    } else if same_text(flag.as_str(), "--vintage") && snapshot {
        Err(string_of("snapshot-dated sources take no --vintage"))
    } else if same_text(flag.as_str(), "--vintage") {
        let cs = chars_of(value.as_str());
        proof {
            assert(cs@.subrange(0, cs@.len() as int) =~= value@);
        }
        match parse_u16(cs.as_slice(), 0, cs.len()) {
            None => {
                let mut m = string_of("--vintage ");
                let q = debug_text(value.as_str());
                push_str(&mut m, q.as_str());
                push_str(&mut m, " is not a year");
                Err(m)
            },
            Some(y) => {
                if contains_year(&st.vintages, y) {
                    let mut m = string_of("--vintage ");
                    push_decimal(&mut m, y as u64);
                    push_str(&mut m, " given twice");
                    Err(m)
                } else {
                    st.vintages.push(y);
                    Ok(st)
                }
            },
        }
    } else if same_text(flag.as_str(), "--out") {
        st.out_dir = string_of(value.as_str());
        Ok(st)
    } else {
        let mut m = string_of("unknown flag ");
        let q = debug_text(flag.as_str());
        push_str(&mut m, q.as_str());
        push_str(&mut m, " for `ingest ");
        push_str(&mut m, source);
        push_str(&mut m, "`");
        Err(m)
    }
}

/// Once a flag fails, reading fails with that flag's message.
proof fn lemma_flags_after_stop(source: Seq<char>, rest: Seq<Seq<char>>, k: nat, n: nat)
    requires
        flags_after(source, rest, k) is Err,
        k <= n,
    ensures
        flags_after(source, rest, n) == flags_after(source, rest, k),
    decreases n - k,
{
    if k < n {
        lemma_flags_after_stop(source, rest, k, (n - 1) as nat);
    }
}

/// Reads the command line (without the program name): two words pick the
/// source, then `flag value` pairs; no words at all asks for the usage
/// text.
pub fn parse_args(args: &[String]) -> (r: Result<Command, Error>)
    ensures
        match command_of(args_view(args@)) {
            Ok(c) => r matches Ok(x) && x@ == c,
            Err(m) => r matches Err(e) && e@ == usage_error(m),
        },
{
    let ghost av = args_view(args@);
    if args.len() < 2 {
        return Ok(Command::Usage);
    }
    let first = &args[0];
    let second = &args[1];
    proof {
        assert(av[0] == first@ && av[1] == second@);
    }
    let known = same_text(second.as_str(), "acs") || same_text(second.as_str(), "pep")
        || same_text(second.as_str(), "echo") || same_text(second.as_str(), "pwc");
    if !(same_text(first.as_str(), "ingest") && known) {
        let mut m = string_of("unknown command ");
        let q1 = debug_text(first.as_str());
        push_str(&mut m, q1.as_str());
        push_str(&mut m, " ");
        let q2 = debug_text(second.as_str());
        push_str(&mut m, q2.as_str());
        return Err(usage(m));
    }
    let source = second.as_str();
    let ghost rest = av.subrange(2, av.len() as int);
    let mut st = FlagState {
        indicator: None,
        vintages: Vec::new(),
        out_dir: string_of("data"),
        naics: string_of("518210"),
    };
    proof {
        assert(st@.vintages =~= Seq::<u16>::empty());
        assert(st@ == initial_flags());
    }
    let mut n: usize = 0;
    while 2 + 2 * n < args.len()
        invariant
            2 <= args@.len(),
            av == args_view(args@),
            rest == av.subrange(2, av.len() as int),
            source@ == av[1],
            av[0] == "ingest"@,
            is_source(av[1]),
            2 * n <= rest.len(),
            flags_after(source@, rest, n as nat) == Ok::<_, Seq<char>>(st@),
        decreases args.len() - 2 * n,
    {
        let k = 2 + 2 * n;
        proof {
            assert(rest[k - 2] == args@[k as int]@);
        }
        if k + 1 >= args.len() {
            let mut m = string_of(args[k].as_str());
            push_str(&mut m, " needs a value");
            proof {
                assert(flags_after(source@, rest, (n + 1) as nat) == Err::<Flags, _>(m@));
                lemma_flags_after_stop(source@, rest, (n + 1) as nat, pair_count(rest));
            }
            return Err(usage(m));
        }
        proof {
            assert(rest[k - 1] == args@[k + 1]@);
        }
        match apply_flag_of(source, &args[k], &args[k + 1], st) {
            Err(m) => {
                proof {
                    lemma_flags_after_stop(source@, rest, (n + 1) as nat, pair_count(rest));
                }
                return Err(usage(m));
            },
            Ok(next) => {
                st = next;
            },
        }
        n = n + 1;
    }
    proof {
        assert(n as nat == pair_count(rest));
    }
    if same_text(source, "echo") {
        return Ok(Command::IngestEcho { naics: st.naics, out_dir: st.out_dir });
    }
    if same_text(source, "pwc") {
        return Ok(Command::IngestPwc { out_dir: st.out_dir });
    }
    if st.vintages.len() == 0 {
        return Err(usage(string_of("at least one --vintage is required")));
    }
    if same_text(source, "acs") {
        match st.indicator {
            None => Err(usage(string_of("--indicator is required"))),
            Some(ind) => Ok(Command::IngestAcs { indicator: ind, vintages: st.vintages, out_dir: st.out_dir }),
        }
    } else {
        Ok(Command::IngestPep { vintages: st.vintages, out_dir: st.out_dir })
    }
}


/// Reading flags never repeats a vintage.
proof fn lemma_flags_vintages_distinct(source: Seq<char>, rest: Seq<Seq<char>>, n: nat)
    ensures
        flags_after(source, rest, n) matches Ok(f) ==> f.vintages.no_duplicates(),
    decreases n,
{
    if n > 0 {
        lemma_flags_vintages_distinct(source, rest, (n - 1) as nat);
        match flags_after(source, rest, (n - 1) as nat) {
            Ok(f) => {
                let k = 2 * (n - 1);
                if k + 1 < rest.len() && rest[k] == "--vintage"@ && !snapshot_dated(source) && !(
                rest[k] == "--indicator"@ && source == "acs"@) && !(rest[k] == "--naics"@ && source
                    == "echo"@) {
                    match parse_u16_spec(rest[k + 1]) {
                        Some(y) => {
                            if !f.vintages.contains(y) {
                                assert forall|a: int, b: int|
                                    0 <= a < f.vintages.push(y).len() && 0 <= b < f.vintages.push(
                                        y,
                                    ).len() && a != b implies f.vintages.push(y)[a] != f.vintages.push(
                                    y,
                                )[b] by {
                                    if a < f.vintages.len() && b < f.vintages.len() {
                                    } else if a == f.vintages.len() {
                                        assert(f.vintages[b] != y);
                                    } else {
                                        assert(f.vintages[a] != y);
                                    }
                                }
                            }
                        },
                        None => {},
                    }
                }
            },
            Err(_) => {},
        }
    }
}

/// A command that ingests vintages names at least one, and none twice.
pub proof fn lemma_command_vintages_distinct(args: Seq<Seq<char>>)
    ensures
        command_of(args) matches Ok(CommandView::IngestAcs { vintages, .. }) ==> vintages.len() > 0
            && vintages.no_duplicates(),
        command_of(args) matches Ok(CommandView::IngestPep { vintages, .. }) ==> vintages.len() > 0
            && vintages.no_duplicates(),
{
    if args.len() >= 2 {
        let rest = args.subrange(2, args.len() as int);
        lemma_flags_vintages_distinct(args[1], rest, pair_count(rest));
    }
}


/// The output directory a command carries (`None` for the usage text).
pub open spec fn out_dir_of(c: CommandView) -> Option<Seq<char>> {
    match c {
        CommandView::Usage => None,
        CommandView::IngestAcs { out_dir, .. } => Some(out_dir),
        CommandView::IngestPep { out_dir, .. } => Some(out_dir),
        CommandView::IngestEcho { out_dir, .. } => Some(out_dir),
        CommandView::IngestPwc { out_dir } => Some(out_dir),
    }
}

/// Flag pair `k` of `rest` is `--out` with its value.
pub open spec fn is_out_flag(rest: Seq<Seq<char>>, k: int) -> bool {
    0 <= k && 2 * k + 1 < rest.len() && rest[2 * k] == "--out"@
}

proof fn lemma_flags_out(source: Seq<char>, rest: Seq<Seq<char>>, n: nat, j: int)
    ensures
        flags_after(source, rest, n) matches Ok(f) ==> {
            &&& (0 <= j < n && is_out_flag(rest, j) && (forall|k: int|
                j < k < n ==> !#[trigger] is_out_flag(rest, k))) ==> f.out_dir == rest[2 * j + 1]
            &&& (forall|k: int| 0 <= k < n ==> !#[trigger] is_out_flag(rest, k)) ==> f.out_dir
                == "data"@
        },
    decreases n,
{
    reveal_strlit("--out");
    reveal_strlit("--indicator");
    reveal_strlit("--naics");
    reveal_strlit("--vintage");
    if n > 0 {
        lemma_flags_out(source, rest, (n - 1) as nat, j);
        match flags_after(source, rest, (n - 1) as nat) {
            Ok(fp) => {
                let k = 2 * (n - 1);
                if k + 1 < rest.len() {
                    assert("--out"@.len() != "--indicator"@.len());
                    assert("--out"@.len() != "--naics"@.len());
                    assert("--out"@.len() != "--vintage"@.len());
                    if rest[k] == "--out"@ {
                        assert(is_out_flag(rest, n - 1));
                    } else {
                        assert(!is_out_flag(rest, n - 1));
                    }
                }
            },
            Err(_) => {},
        }
    }
}

/// Every source's command carries the value of the last `--out` flag as its
/// output directory, and `data` when no `--out` is given.
pub proof fn lemma_out_dir(args: Seq<Seq<char>>, j: int)
    ensures
        command_of(args) matches Ok(c) ==> (c !is Usage ==> {
            let rest = args.subrange(2, args.len() as int);
            &&& (is_out_flag(rest, j) && (forall|k: int| j < k ==> !#[trigger] is_out_flag(rest, k)))
                ==> out_dir_of(c) == Some(rest[2 * j + 1])
            &&& (forall|k: int| !#[trigger] is_out_flag(rest, k)) ==> out_dir_of(c) == Some(
                "data"@,
            )
        }),
{
    if args.len() >= 2 {
        let rest = args.subrange(2, args.len() as int);
        let n = pair_count(rest);
        lemma_flags_out(args[1], rest, n, j);
        if is_out_flag(rest, j) {
            assert(j < n);
        }
    }
}

/// Flag pair `k` of `rest` is `name` with its value.
pub open spec fn is_flag(rest: Seq<Seq<char>>, k: int, name: Seq<char>) -> bool {
    0 <= k && 2 * k + 1 < rest.len() && rest[2 * k] == name
}

proof fn lemma_flags_named(source: Seq<char>, rest: Seq<Seq<char>>, n: nat, j: int)
    ensures
        flags_after(source, rest, n) matches Ok(f) ==> {
            &&& (0 <= j < n && is_flag(rest, j, "--indicator"@) && (forall|k: int|
                j < k < n ==> !#[trigger] is_flag(rest, k, "--indicator"@))) ==> f.indicator
                == Some(rest[2 * j + 1])
            &&& (forall|k: int| 0 <= k < n ==> !#[trigger] is_flag(rest, k, "--indicator"@))
                ==> f.indicator is None
            &&& (0 <= j < n && is_flag(rest, j, "--naics"@) && (forall|k: int|
                j < k < n ==> !#[trigger] is_flag(rest, k, "--naics"@))) ==> f.naics == rest[2 * j
                + 1]
            &&& (forall|k: int| 0 <= k < n ==> !#[trigger] is_flag(rest, k, "--naics"@)) ==> f.naics
                == "518210"@
        },
    decreases n,
{
    reveal_strlit("--out");
    reveal_strlit("--indicator");
    reveal_strlit("--naics");
    reveal_strlit("--vintage");
    if n > 0 {
        lemma_flags_named(source, rest, (n - 1) as nat, j);
        match flags_after(source, rest, (n - 1) as nat) {
            Ok(fp) => {
                let k = 2 * (n - 1);
                if k + 1 < rest.len() {
                    assert("--indicator"@.len() != "--naics"@.len());
                    assert("--indicator"@.len() != "--vintage"@.len());
                    assert("--indicator"@.len() != "--out"@.len());
                    assert("--naics"@.len() != "--vintage"@.len());
                    assert("--naics"@.len() != "--out"@.len());
                    if rest[k] == "--indicator"@ {
                        assert(is_flag(rest, n - 1, "--indicator"@));
                    } else {
                        assert(!is_flag(rest, n - 1, "--indicator"@));
                    }
                    if rest[k] == "--naics"@ {
                        assert(is_flag(rest, n - 1, "--naics"@));
                    } else {
                        assert(!is_flag(rest, n - 1, "--naics"@));
                    }
                }
            },
            Err(_) => {},
        }
    }
}

/// An ACS command carries the value of the last `--indicator` flag, and
/// one is required; an ECHO command carries the value of the last
/// `--naics` flag, and NAICS 518210 when none is given.
pub proof fn lemma_named_flags(args: Seq<Seq<char>>, j: int)
    ensures
        command_of(args) matches Ok(CommandView::IngestAcs { indicator, .. }) ==> {
            let rest = args.subrange(2, args.len() as int);
            &&& (is_flag(rest, j, "--indicator"@) && (forall|k: int|
                j < k ==> !#[trigger] is_flag(rest, k, "--indicator"@))) ==> indicator == rest[2 * j
                + 1]
            &&& exists|k: int| #[trigger] is_flag(rest, k, "--indicator"@)
        },
        command_of(args) matches Ok(CommandView::IngestEcho { naics, .. }) ==> {
            let rest = args.subrange(2, args.len() as int);
            &&& (is_flag(rest, j, "--naics"@) && (forall|k: int|
                j < k ==> !#[trigger] is_flag(rest, k, "--naics"@))) ==> naics == rest[2 * j + 1]
            &&& (forall|k: int| !#[trigger] is_flag(rest, k, "--naics"@)) ==> naics == "518210"@
        },
{
    if args.len() >= 2 {
        let rest = args.subrange(2, args.len() as int);
        let n = pair_count(rest);
        lemma_flags_named(args[1], rest, n, j);
        if is_flag(rest, j, "--indicator"@) || is_flag(rest, j, "--naics"@) {
            assert(j < n);
        }
        assert forall|k: int| #[trigger] is_flag(rest, k, "--indicator"@) implies 0 <= k < n by {}
        assert forall|k: int| #[trigger] is_flag(rest, k, "--naics"@) implies 0 <= k < n by {}
    }
}

/// The years of the first `n` flag pairs that are `--vintage` with a year,
/// in the order given.
pub open spec fn years_given(rest: Seq<Seq<char>>, n: int) -> Seq<u16>
    decreases n,
{
    if n <= 0 {
        Seq::empty()
    } else {
        years_given(rest, n - 1) + if is_flag(rest, n - 1, "--vintage"@) && parse_u16_spec(
            rest[2 * (n - 1) + 1],
        ) is Some {
            seq![parse_u16_spec(rest[2 * (n - 1) + 1])->0]
        } else {
            Seq::<u16>::empty()
        }
    }
}

proof fn lemma_flags_vintages(source: Seq<char>, rest: Seq<Seq<char>>, n: nat)
    ensures
        flags_after(source, rest, n) matches Ok(f) ==> f.vintages == years_given(rest, n as int),
    decreases n,
{
    reveal_strlit("--out");
    reveal_strlit("--indicator");
    reveal_strlit("--naics");
    reveal_strlit("--vintage");
    if n > 0 {
        lemma_flags_vintages(source, rest, (n - 1) as nat);
        match flags_after(source, rest, (n - 1) as nat) {
            Ok(fp) => {
                let k = 2 * (n - 1);
                if k + 1 < rest.len() {
                    assert("--vintage"@.len() != "--indicator"@.len());
                    assert("--vintage"@.len() != "--naics"@.len());
                    assert("--vintage"@.len() != "--out"@.len());
                    if rest[k] == "--vintage"@ {
                        assert(is_flag(rest, n - 1, "--vintage"@));
                        match parse_u16_spec(rest[k + 1]) {
                            Some(y) => {
                                assert(fp.vintages.push(y) =~= years_given(rest, (n - 1) as int)
                                    + seq![y]);
                            },
                            None => {},
                        }
                    } else {
                        assert(!is_flag(rest, n - 1, "--vintage"@));
                        assert(years_given(rest, n as int) =~= years_given(rest, (n - 1) as int));
                    }
                }
            },
            Err(_) => {},
        }
    }
}

/// An ACS or PEP command carries the years of its `--vintage` flags, in the
/// order given.
pub proof fn lemma_command_vintages(args: Seq<Seq<char>>)
    ensures
        command_of(args) matches Ok(CommandView::IngestAcs { vintages, .. }) ==> vintages
            == years_given(args.subrange(2, args.len() as int), pair_count(args.subrange(2, args.len() as int)) as int),
        command_of(args) matches Ok(CommandView::IngestPep { vintages, .. }) ==> vintages
            == years_given(args.subrange(2, args.len() as int), pair_count(args.subrange(2, args.len() as int)) as int),
{
    if args.len() >= 2 {
        let rest = args.subrange(2, args.len() as int);
        lemma_flags_vintages(args[1], rest, pair_count(rest));
    }
}
} // verus!
