//! What the scan tool's command line means, stated without the parser.
//!
//! The arguments split into words: a word starts at position 0, and the next word starts
//! two positions later after `--baud` or `--manifest` (which take the following argument
//! as their value) and one position later otherwise. Over these word starts, the laws
//! here say what the parser gives, field by field: the port is the last word that does
//! not start with `-`, the baud is the value of the last `--baud`, the manifest is the
//! value of the last `--manifest`, help is asked for when any word is `--help` or `-h`,
//! and the line is refused exactly at its first refused word.

use vstd::prelude::*;

use crate::scan::{looks_like_flag, spec_parse_from, spec_parse_u32, ArgError, ScanArgs};

verus! {

/// A flag that takes the next argument as its value.
pub open spec fn takes_value(a: Seq<char>) -> bool {
    a == "--baud"@ || a == "--manifest"@
}

/// The positions, from `i` on, at which a word of the command line starts.
pub open spec fn word_starts(args: Seq<String>, i: int) -> Seq<int>
    decreases args.len() + 2 - i,
    when 0 <= i
{
    if i >= args.len() {
        Seq::empty()
    } else if takes_value(args[i]@) {
        seq![i] + word_starts(args, i + 2)
    } else {
        seq![i] + word_starts(args, i + 1)
    }
}

/// The word at position `k` is a port (it does not start with `-`).
pub open spec fn port_word(args: Seq<String>) -> spec_fn(int) -> bool {
    |k: int| !looks_like_flag(args[k]@)
}

/// The word at position `k` is the given flag.
pub open spec fn flag_word(args: Seq<String>, flag: Seq<char>) -> spec_fn(int) -> bool {
    |k: int| args[k]@ == flag
}

/// The port a command line names after starting from `default`: the last port word, if
/// any.
pub open spec fn named_port(args: Seq<String>, starts: Seq<int>, default: Option<String>) -> Option<
    String,
> {
    let ports = starts.filter(port_word(args));
    if ports.len() == 0 {
        default
    } else {
        Some(args[ports.last()])
    }
}

/// The four flag words are distinct and each starts with `-`.
proof fn lemma_flag_words()
    ensures
        looks_like_flag("--help"@),
        looks_like_flag("-h"@),
        looks_like_flag("--baud"@),
        looks_like_flag("--manifest"@),
        "--help"@ != "-h"@,
        "--help"@ != "--baud"@,
        "--help"@ != "--manifest"@,
        "-h"@ != "--baud"@,
        "-h"@ != "--manifest"@,
        "--baud"@ != "--manifest"@,
{
    reveal_strlit("--help");
    reveal_strlit("-h");
    reveal_strlit("--baud");
    reveal_strlit("--manifest");
    assert("--help"@[2] != "--baud"@[2]);
    assert("--help"@.len() != "-h"@.len());
    assert("--help"@.len() != "--manifest"@.len());
    assert("-h"@.len() != "--baud"@.len());
    assert("-h"@.len() != "--manifest"@.len());
    assert("--baud"@.len() != "--manifest"@.len());
}

/// The word at position `k` asks for help.
pub open spec fn help_word(args: Seq<String>) -> spec_fn(int) -> bool {
    |k: int| args[k]@ == "--help"@ || args[k]@ == "-h"@
}

/// The baud a command line names after starting from `default`: the value of the last
/// `--baud`, if any.
pub open spec fn named_baud(args: Seq<String>, starts: Seq<int>, default: u32) -> u32 {
    let bauds = starts.filter(flag_word(args, "--baud"@));
    if bauds.len() == 0 {
        default
    } else {
        spec_parse_u32(args[bauds.last() + 1]@)->0
    }
}

/// The manifest a command line names after starting from `default`: the value of the
/// last `--manifest`, if any (none when that `--manifest` is the last argument).
pub open spec fn named_manifest(
    args: Seq<String>,
    starts: Seq<int>,
    default: Option<String>,
) -> Option<String> {
    let manifests = starts.filter(flag_word(args, "--manifest"@));
    if manifests.len() == 0 {
        default
    } else if manifests.last() + 1 < args.len() {
        Some(args[manifests.last() + 1])
    } else {
        None
    }
}

/// Help is asked for after starting from `default`: it already was, or a word asks.
pub open spec fn asks_help(args: Seq<String>, starts: Seq<int>, default: bool) -> bool {
    default || starts.filter(help_word(args)).len() > 0
}

/// The word at position `k` is refused: a flag the tool does not know, or a `--baud`
/// that is not followed by a number.
pub open spec fn refused_word(args: Seq<String>, k: int) -> bool {
    ||| looks_like_flag(args[k]@) && args[k]@ != "--help"@ && args[k]@ != "-h"@ && args[k]@
        != "--baud"@ && args[k]@ != "--manifest"@
    ||| args[k]@ == "--baud"@ && !(k + 1 < args.len() && spec_parse_u32(args[k + 1]@) is Some)
}

/// The error for a refused word at position `k`.
pub open spec fn refusal(args: Seq<String>, k: int) -> ArgError {
    if args[k]@ == "--baud"@ {
        ArgError::BaudRequiresNumber
    } else {
        ArgError::UnknownFlag(args[k])
    }
}

/// What the command line has asked for once the word at `i` is read.
closed spec fn after_word(args: Seq<String>, i: int, acc: ScanArgs) -> ScanArgs {
    let a = args[i]@;
    if a == "--help"@ || a == "-h"@ {
        ScanArgs { port: acc.port, baud: acc.baud, manifest: acc.manifest, show_help: true }
    } else if a == "--baud"@ {
        ScanArgs {
            port: acc.port,
            baud: spec_parse_u32(args[i + 1]@)->0,
            manifest: acc.manifest,
            show_help: acc.show_help,
        }
    } else if a == "--manifest"@ {
        ScanArgs {
            port: acc.port,
            baud: acc.baud,
            manifest: if i + 1 < args.len() {
                Some(args[i + 1])
            } else {
                None
            },
            show_help: acc.show_help,
        }
    } else {
        ScanArgs {
            port: Some(args[i]),
            baud: acc.baud,
            manifest: acc.manifest,
            show_help: acc.show_help,
        }
    }
}

/// The width of the word at `i`.
closed spec fn word_width(args: Seq<String>, i: int) -> int {
    if takes_value(args[i]@) {
        2
    } else {
        1
    }
}

/// One word of the command line: where the next word starts, and what the parser does.
proof fn lemma_word(args: Seq<String>, i: int, acc: ScanArgs)
    requires
        0 <= i < args.len(),
    ensures
        word_starts(args, i) == seq![i] + word_starts(args, i + word_width(args, i)),
        refused_word(args, i) ==> spec_parse_from(args, i, acc) == Err::<ScanArgs, ArgError>(
            refusal(args, i),
        ),
        !refused_word(args, i) ==> spec_parse_from(args, i, acc) == spec_parse_from(
            args,
            i + word_width(args, i),
            after_word(args, i, acc),
        ),
{
    lemma_flag_words();
    let a = args[i]@;
    if a == "--help"@ || a == "-h"@ {
        assert(!refused_word(args, i));
        assert(spec_parse_from(args, i, acc) == spec_parse_from(
            args,
            i + word_width(args, i),
            after_word(args, i, acc),
        ));
    } else if a == "--baud"@ {
    } else if a == "--manifest"@ {
        assert(spec_parse_from(args, i, acc) == spec_parse_from(
            args,
            i + word_width(args, i),
            after_word(args, i, acc),
        ));
    } else {
    }
}

/// How `filter` treats a sequence with one position put in front.
proof fn lemma_filter_front(i: int, rest: Seq<int>, p: spec_fn(int) -> bool)
    ensures
        p(i) ==> (seq![i] + rest).filter(p) == seq![i] + rest.filter(p),
        !p(i) ==> (seq![i] + rest).filter(p) == rest.filter(p),
        p(i) && rest.filter(p).len() > 0 ==> (seq![i] + rest).filter(p).last() == rest.filter(
            p,
        ).last(),
        p(i) && rest.filter(p).len() == 0 ==> (seq![i] + rest).filter(p).last() == i,
        (seq![i] + rest).filter(p).len() > 0 <==> (p(i) || rest.filter(p).len() > 0),
{
    rest.lemma_filter_prepend(i, p);
    assert(Seq::<int>::empty() + rest.filter(p) =~= rest.filter(p));
    if p(i) {
        let f = rest.filter(p);
        assert((seq![i] + f).len() == f.len() + 1);
        if f.len() > 0 {
            assert((seq![i] + f).last() == f.last());
        }
    }
}

proof fn lemma_empty_filter(p: spec_fn(int) -> bool)
    ensures
        Seq::<int>::empty().filter(p) == Seq::<int>::empty(),
{
    assert(Seq::<int>::empty().filter(p) =~= Seq::<int>::empty()) by {
        reveal_with_fuel(Seq::<_>::filter, 1);
    }
}

/// Read from position `i` on, starting from `acc`, each field of an accepted command line
/// is the one its words name, and the line is refused exactly at its first refused word.
proof fn lemma_fields_from(args: Seq<String>, i: int, acc: ScanArgs)
    requires
        0 <= i,
    ensures
        spec_parse_from(args, i, acc) matches Ok(r) ==> {
            &&& r.port == named_port(args, word_starts(args, i), acc.port)
            &&& r.baud == named_baud(args, word_starts(args, i), acc.baud)
            &&& r.manifest == named_manifest(args, word_starts(args, i), acc.manifest)
            &&& r.show_help == asks_help(args, word_starts(args, i), acc.show_help)
        },
        (forall|j: int|
            0 <= j < word_starts(args, i).len() ==> !refused_word(
                args,
                #[trigger] word_starts(args, i)[j],
            )) ==> spec_parse_from(args, i, acc) is Ok,
        forall|j: int|
            0 <= j < word_starts(args, i).len() && refused_word(
                args,
                #[trigger] word_starts(args, i)[j],
            ) && (forall|j2: int| 0 <= j2 < j ==> !refused_word(args, word_starts(args, i)[j2]))
                ==> spec_parse_from(args, i, acc) == Err::<ScanArgs, ArgError>(
                refusal(args, word_starts(args, i)[j]),
            ),
    decreases args.len() + 2 - i,
{
    lemma_flag_words();
    let h = word_starts(args, i);
    if i >= args.len() {
        lemma_empty_filter(port_word(args));
        lemma_empty_filter(flag_word(args, "--baud"@));
        lemma_empty_filter(flag_word(args, "--manifest"@));
        lemma_empty_filter(help_word(args));
    } else {
        let w = word_width(args, i);
        let acc2 = after_word(args, i, acc);
        lemma_word(args, i, acc);
        let rest = word_starts(args, i + w);
        lemma_fields_from(args, i + w, acc2);
        lemma_filter_front(i, rest, port_word(args));
        lemma_filter_front(i, rest, flag_word(args, "--baud"@));
        lemma_filter_front(i, rest, flag_word(args, "--manifest"@));
        lemma_filter_front(i, rest, help_word(args));
        assert(h[0] == i);
        assert forall|j: int| 1 <= j < h.len() implies h[j] == rest[j - 1] by {}
        if refused_word(args, i) {
        } else {
            if forall|j: int| 0 <= j < h.len() ==> !refused_word(args, #[trigger] h[j]) {
                assert forall|j: int| 0 <= j < rest.len() implies !refused_word(
                    args,
                    #[trigger] rest[j],
                ) by {
                    assert(h[j + 1] == rest[j]);
                }
            }
            assert forall|j: int|
                0 <= j < h.len() && refused_word(args, #[trigger] h[j]) && (forall|j2: int|
                    0 <= j2 < j ==> !refused_word(args, h[j2])) implies spec_parse_from(
                args,
                i,
                acc,
            ) == Err::<ScanArgs, ArgError>(refusal(args, h[j])) by {
                assert(j >= 1);
                assert(h[j] == rest[j - 1]);
                assert forall|j2: int| 0 <= j2 < j - 1 implies !refused_word(
                    args,
                    rest[j2],
                ) by {
                    assert(h[j2 + 1] == rest[j2]);
                }
            }
            if spec_parse_from(args, i, acc) is Ok {
                let a = args[i]@;
                if a == "--baud"@ {
                    assert(flag_word(args, "--baud"@)(i));
                } else if a == "--manifest"@ {
                    assert(flag_word(args, "--manifest"@)(i));
                } else if a == "--help"@ || a == "-h"@ {
                    assert(help_word(args)(i));
                } else {
                    assert(port_word(args)(i));
                }
            }
        }
    }
}

/// The meaning of the scan tool's command line, word by word.
///
/// The line is refused exactly when one of its words is a flag the tool does not know or
/// a `--baud` not followed by a number, and then with the error of the first such word.
/// Otherwise the port is the last word that does not start with `-` (none when there is
/// none), the baud is the number after the last `--baud` (the default baud when there is
/// none), the manifest is the argument after the last `--manifest` (none when there is no
/// `--manifest`, or it is the last argument), and help is asked for exactly when some word
/// is `--help` or `-h`. In particular `--manifest <path>` changes nothing but the manifest.
pub proof fn law_command_line(args: Seq<String>)
    ensures
        spec_parse_from(args, 0, ScanArgs::initial()) matches Ok(r) ==> {
            &&& r.port == named_port(args, word_starts(args, 0), None)
            &&& r.baud == named_baud(args, word_starts(args, 0), crate::scan::DEFAULT_BAUD)
            &&& r.manifest == named_manifest(args, word_starts(args, 0), None)
            &&& r.show_help == asks_help(args, word_starts(args, 0), false)
        },
        (forall|j: int|
            0 <= j < word_starts(args, 0).len() ==> !refused_word(
                args,
                #[trigger] word_starts(args, 0)[j],
            )) ==> spec_parse_from(args, 0, ScanArgs::initial()) is Ok,
        forall|j: int|
            0 <= j < word_starts(args, 0).len() && refused_word(
                args,
                #[trigger] word_starts(args, 0)[j],
            ) && (forall|j2: int| 0 <= j2 < j ==> !refused_word(args, word_starts(args, 0)[j2]))
                ==> spec_parse_from(args, 0, ScanArgs::initial()) == Err::<ScanArgs, ArgError>(
                refusal(args, word_starts(args, 0)[j]),
            ),
{
    lemma_fields_from(args, 0, ScanArgs::initial());
}

} // verus!
