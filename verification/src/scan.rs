//! The decisions of the bus-scan field tool: reading its command line, and checking the
//! ids that answered a ping against a hardware descriptor.
//!
//! The tool itself opens the serial port, pings every id and prints; those steps stay at
//! its edge and hand plain values to the functions here.

use vstd::prelude::*;
use vstd::string::StrSliceExecFns;

use crate::descriptor::{HardwareDescriptor, Joint};
use crate::scan_laws::{
    asks_help, law_command_line, named_baud, named_manifest, named_port, refusal, refused_word,
    word_starts,
};

verus! {

/// The baud rate the bus is opened at unless `--baud` says otherwise.
pub const DEFAULT_BAUD: u32 = 1_000_000;

/// The highest Dynamixel id a scan pings.
pub const MAX_ID: u8 = 252;

/// The ids a scan pings, in order: every id from `0` to [`MAX_ID`], with no prior table.
pub fn ping_ids() -> (r: Vec<u8>)
    ensures
        r@.len() == MAX_ID + 1,
        forall|k: int| 0 <= k < r@.len() ==> r@[k] == k,
{
    let mut r: Vec<u8> = Vec::new();
    let mut id: u8 = 0;
    loop
        invariant
            id <= MAX_ID,
            r@.len() == id,
            forall|k: int| 0 <= k < r@.len() ==> r@[k] == k,
        decreases MAX_ID - id,
    {
        r.push(id);
        if id == MAX_ID {
            return r;
        }
        id = id + 1;
    }
}

/// What the command line asked for.
#[derive(Debug)]
pub struct ScanArgs {
    /// The serial port path, if one was given (the last one given wins).
    pub port: Option<String>,
    /// The baud rate to open the bus at.
    pub baud: u32,
    /// The descriptor to cross-check the answers against, if any.
    pub manifest: Option<String>,
    /// `--help` or `-h` was given.
    pub show_help: bool,
}

/// Why the command line was refused.
#[derive(Debug)]
pub enum ArgError {
    /// `--baud` was not followed by a number.
    BaudRequiresNumber,
    /// A flag that the tool does not know.
    UnknownFlag(String),
}

/// A decimal digit.
pub open spec fn is_decimal_digit(c: char) -> bool {
    '0' <= c <= '9'
}

/// The value of a string of decimal digits.
pub open spec fn decimal_value(s: Seq<char>) -> nat
    decreases s.len(),
{
    if s.len() == 0 {
        0
    } else {
        decimal_value(s.drop_last()) * 10 + ((s.last() as int) - ('0' as int)) as nat
    }
}

/// The digits of an unsigned number: the text after one optional leading `+`.
pub open spec fn unsigned_digits(s: Seq<char>) -> Seq<char> {
    if s.len() > 0 && s[0] == '+' {
        s.drop_first()
    } else {
        s
    }
}

/// What parsing a `u32` from text gives: an optional `+` followed by at least one decimal
/// digit and nothing else, whose value fits in 32 bits.
pub open spec fn spec_parse_u32(s: Seq<char>) -> Option<u32> {
    let d = unsigned_digits(s);
    if d.len() > 0 && (forall|i: int| 0 <= i < d.len() ==> is_decimal_digit(#[trigger] d[i]))
        && decimal_value(d) <= u32::MAX {
        Some(decimal_value(d) as u32)
    } else {
        None
    }
}

/// `str::parse::<u32>`: by its documentation, the text must be an optional `+` sign
/// followed by only ASCII digits, with no other character, and the value must fit in a
/// `u32`; anything else is an error.
#[verifier::external_body]
fn parse_u32(s: &str) -> (r: Option<u32>)
    ensures
        r == spec_parse_u32(s@),
{
    s.parse::<u32>().ok()
}

/// Compares two texts character by character.
fn same_text(a: &str, b: &str) -> (r: bool)
    ensures
        r == (a@ == b@),
{
    let n = a.unicode_len();
    if n != b.unicode_len() {
        return false;
    }
    let mut i: usize = 0;
    while i < n
        invariant
            n == a@.len(),
            n == b@.len(),
            i <= n,
            forall|k: int| 0 <= k < i ==> a@[k] == b@[k],
        decreases n - i,
    {
        if a.get_char(i) != b.get_char(i) {
            return false;
        }
        i = i + 1;
    }
    assert(a@ =~= b@);
    true
}

/// The text starts with `-`.
pub open spec fn looks_like_flag(s: Seq<char>) -> bool {
    s.len() > 0 && s[0] == '-'
}

impl ScanArgs {
    /// The command line before any argument is read.
    pub open spec fn initial() -> ScanArgs {
        ScanArgs { port: None, baud: DEFAULT_BAUD, manifest: None, show_help: false }
    }
}

/// Reading the arguments from position `i` on, with `acc` what the earlier ones asked for.
///
/// `--help`/`-h` sets the help flag; `--baud` takes the next argument as a number and is
/// refused without one; `--manifest` takes the next argument as the descriptor path (none
/// when it is the last argument); any other argument starting with `-` is refused as an
/// unknown flag; anything else is the port.
pub open spec fn spec_parse_from(args: Seq<String>, i: int, acc: ScanArgs) -> Result<
    ScanArgs,
    ArgError,
>
    decreases args.len() + 2 - i,
    when 0 <= i
{
    if i >= args.len() {
        Ok(acc)
    } else {
        let a = args[i]@;
        if a == "--help"@ || a == "-h"@ {
            spec_parse_from(
                args,
                i + 1,
                ScanArgs { port: acc.port, baud: acc.baud, manifest: acc.manifest, show_help: true },
            )
        } else if a == "--baud"@ {
            if i + 1 < args.len() && spec_parse_u32(args[i + 1]@) is Some {
                spec_parse_from(
                    args,
                    i + 2,
                    ScanArgs {
                        port: acc.port,
                        baud: spec_parse_u32(args[i + 1]@)->0,
                        manifest: acc.manifest,
                        show_help: acc.show_help,
                    },
                )
            } else {
                Err(ArgError::BaudRequiresNumber)
            }
        } else if a == "--manifest"@ {
            spec_parse_from(
                args,
                i + 2,
                ScanArgs {
                    port: acc.port,
                    baud: acc.baud,
                    manifest: if i + 1 < args.len() {
                        Some(args[i + 1])
                    } else {
                        None
                    },
                    show_help: acc.show_help,
                },
            )
        } else if looks_like_flag(a) {
            Err(ArgError::UnknownFlag(args[i]))
        } else {
            spec_parse_from(
                args,
                i + 1,
                ScanArgs { port: Some(args[i]), baud: acc.baud, manifest: acc.manifest, show_help: acc.show_help },
            )
        }
    }
}

/// Reads the scan tool's command line (the arguments after the program name).
///
/// Word by word (see [`crate::scan_laws`]): the port is the last word not starting with
/// `-`, the baud is the number after the last `--baud`, the manifest is the argument after
/// the last `--manifest`, help is asked for when any word is `--help` or `-h`, and the line
/// is refused at its first unknown flag or `--baud` without a number.
#[verifier::loop_isolation(false)]
pub fn parse_args(args: &Vec<String>) -> (r: Result<ScanArgs, ArgError>)
    ensures
        r == spec_parse_from(args@, 0, ScanArgs::initial()),
        r matches Ok(a) ==> {
            &&& a.port == named_port(args@, word_starts(args@, 0), None)
            &&& a.baud == named_baud(args@, word_starts(args@, 0), DEFAULT_BAUD)
            &&& a.manifest == named_manifest(args@, word_starts(args@, 0), None)
            &&& a.show_help == asks_help(args@, word_starts(args@, 0), false)
        },
        (forall|j: int|
            0 <= j < word_starts(args@, 0).len() ==> !refused_word(
                args@,
                #[trigger] word_starts(args@, 0)[j],
            )) ==> r is Ok,
        forall|j: int|
            0 <= j < word_starts(args@, 0).len() && refused_word(
                args@,
                #[trigger] word_starts(args@, 0)[j],
            ) && (forall|j2: int|
                0 <= j2 < j ==> !refused_word(args@, word_starts(args@, 0)[j2])) ==> r == Err::<
                ScanArgs,
                ArgError,
            >(refusal(args@, word_starts(args@, 0)[j])),
{
    proof {
        law_command_line(args@);
    }
    let n = args.len();
    let mut st = ScanArgs { port: None, baud: DEFAULT_BAUD, manifest: None, show_help: false };
    let mut i: usize = 0;
    while i < n
        invariant
            n == args@.len(),
            i <= n,
            spec_parse_from(args@, 0, ScanArgs::initial()) == spec_parse_from(args@, i as int, st),
        decreases n - i,
    {
        let a = args[i].as_str();
        if same_text(a, "--help") || same_text(a, "-h") {
            st = ScanArgs { port: st.port, baud: st.baud, manifest: st.manifest, show_help: true };
            i = i + 1;
        } else if same_text(a, "--baud") {
            if i + 1 < n {
                match parse_u32(args[i + 1].as_str()) {
                    Some(b) => {
                        st = ScanArgs {
                            port: st.port,
                            baud: b,
                            manifest: st.manifest,
                            show_help: st.show_help,
                        };
                        i = i + 2;
                    },
                    None => {
                        return Err(ArgError::BaudRequiresNumber);
                    },
                }
            } else {
                return Err(ArgError::BaudRequiresNumber);
            }
        } else if same_text(a, "--manifest") {
            if i + 1 < n {
                st = ScanArgs {
                    port: st.port,
                    baud: st.baud,
                    manifest: Some(args[i + 1].clone()),
                    show_help: st.show_help,
                };
                i = i + 2;
            } else {
                st = ScanArgs {
                    port: st.port,
                    baud: st.baud,
                    manifest: None,
                    show_help: st.show_help,
                };
                assert(spec_parse_from(args@, i + 2, st) == Ok::<ScanArgs, ArgError>(st));
                assert(spec_parse_from(args@, n as int, st) == Ok::<ScanArgs, ArgError>(st));
                i = n;
            }
        } else if a.unicode_len() > 0 && a.get_char(0) == '-' {
            return Err(ArgError::UnknownFlag(args[i].clone()));
        } else {
            st = ScanArgs {
                port: Some(args[i].clone()),
                baud: st.baud,
                manifest: st.manifest,
                show_help: st.show_help,
            };
            i = i + 1;
        }
    }
    Ok(st)
}

/// The ids a descriptor lists on its bus: every joint's id in joint order, then the
/// IMU's id.
pub open spec fn spec_listed_ids(desc: HardwareDescriptor) -> Seq<u8> {
    desc.joints@.map_values(|j: Joint| j.id).push(desc.imu.id)
}

/// The ids a descriptor lists on its bus: every joint's id in joint order, then the
/// IMU's id.
pub fn listed_ids(desc: &HardwareDescriptor) -> (r: Vec<u8>)
    ensures
        r@ == spec_listed_ids(*desc),
        r@.len() == desc.joints@.len() + 1,
        forall|k: int| 0 <= k < desc.joints@.len() ==> r@[k] == #[trigger] desc.joints@[k].id,
        r@.last() == desc.imu.id,
{
    let n = desc.joints.len();
    let mut r: Vec<u8> = Vec::new();
    let mut i: usize = 0;
    while i < n
        invariant
            n == desc.joints@.len(),
            i <= n,
            r@ == desc.joints@.take(i as int).map_values(|j: Joint| j.id),
        decreases n - i,
    {
        r.push(desc.joints[i].id);
        proof {
            assert(desc.joints@.take(i + 1) == desc.joints@.take(i as int).push(desc.joints@[i as int]));
        }
        i = i + 1;
        assert(r@ =~= desc.joints@.take(i as int).map_values(|j: Joint| j.id));
    }
    assert(desc.joints@.take(n as int) =~= desc.joints@);
    r.push(desc.imu.id);
    r
}

/// The ids a descriptor lists are exactly its joint ids in joint order followed by its
/// IMU id; nothing else in the descriptor (such as its perception block) adds to them.
pub proof fn law_listed_ids(desc: HardwareDescriptor)
    ensures
        spec_listed_ids(desc).len() == desc.joints@.len() + 1,
        forall|k: int|
            0 <= k < desc.joints@.len() ==> spec_listed_ids(desc)[k] == #[trigger] desc.joints@[k].id,
        spec_listed_ids(desc).last() == desc.imu.id,
{
}

/// The listed ids that did not answer, in listed order (an id listed twice is reported
/// twice).
pub open spec fn spec_missing_ids(listed: Seq<u8>, found: Seq<u8>) -> Seq<u8> {
    listed.filter(|id: u8| !found.contains(id))
}

/// Nothing listed, nothing missing.
pub proof fn law_missing_ids_of_nothing(found: Seq<u8>)
    ensures
        spec_missing_ids(Seq::empty(), found) == Seq::<u8>::empty(),
{
    assert(spec_missing_ids(Seq::empty(), found) =~= Seq::<u8>::empty()) by {
        reveal_with_fuel(Seq::<_>::filter, 1);
    }
}

/// One listed id is missing exactly when it did not answer.
pub proof fn law_missing_ids_of_one(id: u8, found: Seq<u8>)
    ensures
        spec_missing_ids(seq![id], found) == (if found.contains(id) {
            Seq::<u8>::empty()
        } else {
            seq![id]
        }),
{
    reveal_with_fuel(Seq::<_>::filter, 2);
    assert(seq![id].drop_last() =~= Seq::<u8>::empty());
    if found.contains(id) {
        assert(spec_missing_ids(seq![id], found) =~= Seq::<u8>::empty());
    } else {
        assert(spec_missing_ids(seq![id], found) =~= seq![id]);
    }
}

/// Checking two lists one after the other reports what checking each reports, in order:
/// with the two laws above, every unanswered listed id is reported, once per listing, in
/// listed order, and nothing else is.
pub proof fn law_missing_ids_of_concatenation(first: Seq<u8>, second: Seq<u8>, found: Seq<u8>)
    ensures
        spec_missing_ids(first + second, found) == spec_missing_ids(first, found)
            + spec_missing_ids(second, found),
{
    Seq::filter_distributes_over_add(first, second, |id: u8| !found.contains(id));
}

/// Whether `id` is among `found`.
fn answered(found: &Vec<u8>, id: u8) -> (r: bool)
    ensures
        r == found@.contains(id),
{
    let n = found.len();
    let mut i: usize = 0;
    while i < n
        invariant
            n == found@.len(),
            i <= n,
            forall|k: int| 0 <= k < i ==> found@[k] != id,
        decreases n - i,
    {
        if found[i] == id {
            assert(found@[i as int] == id);
            return true;
        }
        i = i + 1;
    }
    false
}

/// The listed ids that did not answer, in listed order.
pub fn missing_ids(listed: &Vec<u8>, found: &Vec<u8>) -> (r: Vec<u8>)
    ensures
        r@ == spec_missing_ids(listed@, found@),
        r@.len() == 0 <==> (forall|k: int|
            0 <= k < listed@.len() ==> found@.contains(#[trigger] listed@[k])),
        forall|k: int| 0 <= k < r@.len() ==> listed@.contains(#[trigger] r@[k]) && !found@.contains(r@[k]),
{
    let n = listed.len();
    let mut r: Vec<u8> = Vec::new();
    let mut i: usize = 0;
    while i < n
        invariant
            n == listed@.len(),
            i <= n,
            r@ == spec_missing_ids(listed@.take(i as int), found@),
            r@.len() == 0 <==> (forall|k: int|
                0 <= k < i ==> found@.contains(#[trigger] listed@[k])),
            forall|k: int| 0 <= k < r@.len() ==> listed@.contains(#[trigger] r@[k]) && !found@.contains(r@[k]),
        decreases n - i,
    {
        let id = listed[i];
        proof {
            reveal_with_fuel(Seq::<_>::filter, 1);
            assert(listed@.take(i + 1).drop_last() =~= listed@.take(i as int));
        }
        if !answered(found, id) {
            r.push(id);
        }
        i = i + 1;
    }
    assert(listed@.take(n as int) =~= listed@);
    r
}

} // verus!
