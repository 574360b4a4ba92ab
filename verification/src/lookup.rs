//! Argument classification for one pilot invocation.
//!
//! argv tokens fall in three classes: `@NAME` selects an identity suffix,
//! `%name[:value]` is a pilot option, everything else is forwarded to the
//! guest target command.
use vstd::prelude::*;

use crate::text::{chars_of, chars_to_string, rfind_char, rindex_of_char, subrange_chars};

verus! {

/// Marker for the argument-classification helpers.
pub struct Lookup {}

/// `s` with every `-` preceded by a backslash, the escaping the kernel
/// command line needs.
pub open spec fn escape_dashes(s: Seq<char>) -> Seq<char>
    decreases s.len(),
{
    if s.len() == 0 {
        Seq::empty()
    } else {
        escape_dashes(s.drop_last()).add(
            if s.last() == '-' {
                seq!['\\', '-']
            } else {
                seq![s.last()]
            },
        )
    }
}

/// Whether an argument is consumed by the pilot itself rather than
/// forwarded: identity suffixes (`@`) and pilot options (`%`).
pub open spec fn is_pilot_arg(a: Seq<char>) -> bool {
    a.len() > 0 && (a[0] == '@' || a[0] == '%')
}

/// The arguments forwarded to the guest command, in order, each escaped
/// for the kernel command line when `quote` is set.
pub open spec fn forwarded_args(args: Seq<Seq<char>>, quote: bool) -> Seq<Seq<char>>
    decreases args.len(),
{
    if args.len() == 0 {
        Seq::empty()
    } else {
        let init = forwarded_args(args.drop_last(), quote);
        let a = args.last();
        if is_pilot_arg(a) {
            init
        } else if quote {
            init.push(escape_dashes(a))
        } else {
            init.push(a)
        }
    }
}

impl Lookup {
    /// The run command line: `init` followed by every forwarded caller
    /// argument, with `-` backslash-escaped when the line is destined for
    /// the kernel command line.
    pub fn get_run_cmdline(init: Vec<String>, args: &Vec<String>, quote_for_kernel_cmdline: bool)
        -> (r: Vec<String>)
        ensures
            r.deep_view() == init.deep_view().add(
                forwarded_args(args.deep_view(), quote_for_kernel_cmdline),
            ),
    {
        let ghost init0 = init.deep_view();
        let mut run: Vec<String> = init;
        let mut i: usize = 0;
        while i < args.len()
            invariant
                i <= args@.len(),
                run.deep_view() == init0.add(
                    forwarded_args(args.deep_view().subrange(0, i as int), quote_for_kernel_cmdline),
                ),
            decreases args@.len() - i,
        {
            let ghost prefix = args.deep_view().subrange(0, i as int);
            let ghost prefix1 = args.deep_view().subrange(0, i + 1 as int);
            proof {
                assert(prefix1.drop_last() =~= prefix);
                assert(prefix1.last() == args.deep_view()[i as int]);
            }
            let a = chars_of(args[i].as_str());
            proof {
                assert(args.deep_view()[i as int] == args@[i as int]@);
                assert(a@ == args.deep_view()[i as int]);
            }
            if a.len() > 0 && (a[0] == '@' || a[0] == '%') {
                proof {
                    assert(is_pilot_arg(args.deep_view()[i as int]));
                    assert(forwarded_args(prefix1, quote_for_kernel_cmdline)
                        == forwarded_args(prefix, quote_for_kernel_cmdline));
                }
            } else {
                proof {
                    assert(!is_pilot_arg(args.deep_view()[i as int]));
                }
                let ghost before = run.deep_view();
                if quote_for_kernel_cmdline {
                    let e = escape_dashes_exec(&a);
                    run.push(chars_to_string(&e));
                    proof {
                        assert(run.deep_view() =~~= before.push(escape_dashes(a@)));
                        assert(forwarded_args(prefix1, quote_for_kernel_cmdline)
                            == forwarded_args(prefix, quote_for_kernel_cmdline).push(
                            escape_dashes(a@)));
                        assert(run.deep_view() =~~= init0.add(
                            forwarded_args(prefix1, quote_for_kernel_cmdline),
                        ));
                    }
                } else {
                    run.push(args[i].as_str().to_owned());
                    proof {
                        assert(run.deep_view() =~~= before.push(a@));
                        assert(forwarded_args(prefix1, quote_for_kernel_cmdline)
                            == forwarded_args(prefix, quote_for_kernel_cmdline).push(a@));
                        assert(run.deep_view() =~~= init0.add(
                            forwarded_args(prefix1, quote_for_kernel_cmdline),
                        ));
                    }
                }
            }
            i += 1;
        }
        proof {
            assert(args.deep_view().subrange(0, args.deep_view().len() as int) =~= args.deep_view());
        }
        run
    }

    /// The pilot options among the arguments, in order of appearance, as
    /// `(name, value)` pairs; the later occurrence of a name wins on
    /// lookup, as a map insert would.
    pub fn get_pilot_run_options(args: &Vec<String>) -> (r: Vec<(String, String)>)
        ensures
            r.deep_view() == pilot_options_spec(args.deep_view()),
    {
        let mut opts: Vec<(String, String)> = Vec::new();
        let mut i: usize = 0;
        while i < args.len()
            invariant
                i <= args@.len(),
                opts.deep_view() == pilot_options_spec(args.deep_view().subrange(0, i as int)),
            decreases args@.len() - i,
        {
            let ghost prefix = args.deep_view().subrange(0, i as int);
            let ghost prefix1 = args.deep_view().subrange(0, i + 1 as int);
            proof {
                assert(prefix1.drop_last() =~= prefix);
                assert(prefix1.last() == args.deep_view()[i as int]);
            }
            let a = chars_of(args[i].as_str());
            if a.len() > 0 && a[0] == '%' {
                let pair = split_pilot_option(&a);
                proof {
                    assert(pair.deep_view() == pilot_option_of(args.deep_view()[i as int]));
                }
                opts.push(pair);
                proof {
                    assert(opts.deep_view() =~~= pilot_options_spec(prefix1));
                }
            }
            i += 1;
        }
        proof {
            assert(args.deep_view().subrange(0, args.deep_view().len() as int) =~= args.deep_view());
        }
        opts
    }
}

/// Split one `%name[:value]` token at its last `:`; a token without a
/// value part keeps the whole token as the name.
pub open spec fn pilot_option_of(a: Seq<char>) -> (Seq<char>, Seq<char>) {
    match rfind_char(a, ':') {
        Some(i) => if i > 0 {
            (a.subrange(0, i), a.subrange(i + 1, a.len() as int))
        } else {
            (a, Seq::empty())
        },
        None => (a, Seq::empty()),
    }
}

/// The `(name, value)` pairs of the pilot options among `args`, in order.
pub open spec fn pilot_options_spec(args: Seq<Seq<char>>) -> Seq<(Seq<char>, Seq<char>)>
    decreases args.len(),
{
    if args.len() == 0 {
        Seq::empty()
    } else {
        let init = pilot_options_spec(args.drop_last());
        let a = args.last();
        if a.len() > 0 && a[0] == '%' {
            init.push(pilot_option_of(a))
        } else {
            init
        }
    }
}

/// The value of option `name`, under last-occurrence-wins.
pub open spec fn option_lookup(opts: Seq<(Seq<char>, Seq<char>)>, name: Seq<char>) -> Option<
    Seq<char>,
>
    decreases opts.len(),
{
    if opts.len() == 0 {
        None
    } else if opts.last().0 == name {
        Some(opts.last().1)
    } else {
        option_lookup(opts.drop_last(), name)
    }
}

/// Whether option `name` was passed.
pub fn has_option(opts: &Vec<(String, String)>, name: &str) -> (r: bool)
    ensures
        r == (option_lookup(opts.deep_view(), name@) is Some),
{
    option_value(opts, name).is_some()
}

/// The value of option `name`, the later occurrence winning.
pub fn option_value(opts: &Vec<(String, String)>, name: &str) -> (r: Option<String>)
    ensures
        match r {
            Some(v) => option_lookup(opts.deep_view(), name@) == Some(v@),
            None => option_lookup(opts.deep_view(), name@) is None,
        },
{
    let mut i: usize = opts.len();
    proof {
        assert(opts.deep_view().subrange(0, opts.deep_view().len() as int) =~= opts.deep_view());
    }
    while i > 0
        invariant
            i <= opts@.len(),
            option_lookup(opts.deep_view(), name@) == option_lookup(
                opts.deep_view().subrange(0, i as int),
                name@,
            ),
        decreases i,
    {
        let ghost prefix = opts.deep_view().subrange(0, i as int);
        proof {
            assert(prefix.drop_last() =~= opts.deep_view().subrange(0, i - 1 as int));
            assert(prefix.last() == opts.deep_view()[i - 1]);
        }
        i -= 1;
        if string_eq_str(&opts[i].0, name) {
            return Some(opts[i].1.as_str().to_owned());
        }
    }
    None
}

/// Whether a `String` and a `&str` have the same characters.
pub fn string_eq_str(a: &String, b: &str) -> (r: bool)
    ensures
        r == (a@ == b@),
{
    let r = str_eq(a.as_str(), b);
    r
}

/// Whether two string slices have the same characters.
pub fn str_eq(a: &str, b: &str) -> (r: bool)
    ensures
        r == (a@ == b@),
{
    let av = chars_of(a);
    let bv = chars_of(b);
    if av.len() != bv.len() {
        proof {
            assert(a@.len() != b@.len());
        }
        return false;
    }
    let mut i: usize = 0;
    while i < av.len()
        invariant
            i <= av@.len(),
            av@.len() == bv@.len(),
            av@ == a@,
            bv@ == b@,
            forall|j: int| 0 <= j < i ==> av@[j] == bv@[j],
        decreases av@.len() - i,
    {
        if av[i] != bv[i] {
            proof {
                assert(a@[i as int] != b@[i as int]);
            }
            return false;
        }
        i += 1;
    }
    proof {
        assert(a@ =~= b@);
    }
    true
}

/// Split a pilot option token at its last `:`.
fn split_pilot_option(a: &Vec<char>) -> (r: (String, String))
    ensures
        r.deep_view() == pilot_option_of(a@),
{
    match rindex_of_char(a, ':') {
        Some(i) => {
            proof {
                crate::text::lemma_rfind_char_some(a@, ':');
            }
            proof {
                assert((i as int) < a@.len());
            }
            let n = a.len();
            if i > 0 {
                let name = subrange_chars(a, 0, i);
                let value = subrange_chars(a, i + 1, n);
                (chars_to_string(&name), chars_to_string(&value))
            } else {
                (chars_to_string(a), String::new())
            }
        },
        None => (chars_to_string(a), String::new()),
    }
}

/// `s` with every `-` backslash-escaped.
pub fn escape_dashes_exec(s: &Vec<char>) -> (r: Vec<char>)
    ensures
        r@ == escape_dashes(s@),
{
    let mut r: Vec<char> = Vec::new();
    let mut i: usize = 0;
    while i < s.len()
        invariant
            i <= s@.len(),
            r@ == escape_dashes(s@.subrange(0, i as int)),
        decreases s@.len() - i,
    {
        let ghost prefix = s@.subrange(0, i as int);
        let ghost prefix1 = s@.subrange(0, i + 1 as int);
        proof {
            assert(prefix1.drop_last() =~= prefix);
            assert(prefix1.last() == s@[i as int]);
        }
        if s[i] == '-' {
            r.push('\\');
            r.push('-');
        } else {
            r.push(s[i]);
        }
        proof {
            assert(r@ =~= escape_dashes(prefix1));
        }
        i += 1;
    }
    proof {
        assert(s@.subrange(0, s@.len() as int) =~= s@);
    }
    r
}


/// The candidate absolute paths of a command: each entry of the `PATH`
/// value joined with the command name, in order.  The command is found
/// when any candidate exists on disk.
pub fn which_candidates(path_value: &str, command: &str) -> (r: Vec<String>)
    ensures
        r.deep_view().len() == crate::text::split_on(path_value@, ':').len(),
        forall|i: int|
            0 <= i < r.deep_view().len() ==> #[trigger] r.deep_view()[i] == crate::text::split_on(
                path_value@,
                ':',
            )[i] + "/"@ + command@,
{
    let v = chars_of(path_value);
    let entries = crate::text::split_chars(&v, ':');
    let mut r: Vec<String> = Vec::new();
    let mut i: usize = 0;
    while i < entries.len()
        invariant
            i <= entries@.len(),
            entries.deep_view() == crate::text::split_on(path_value@, ':'),
            r.deep_view().len() == i,
            forall|k: int|
                0 <= k < i ==> #[trigger] r.deep_view()[k] == entries.deep_view()[k] + "/"@
                    + command@,
        decreases entries@.len() - i,
    {
        let entry = subrange_chars(&entries[i], 0, entries[i].len());
        proof {
            assert(entry@ =~= entries.deep_view()[i as int]);
        }
        let mut s = chars_to_string(&entry);
        s.append("/");
        s.append(command);
        let ghost sv = s@;
        let ghost r0 = r.deep_view();
        r.push(s);
        proof {
            assert(r.deep_view() =~~= r0.push(sv));
            assert(sv == entries.deep_view()[i as int] + "/"@ + command@);
        }
        i += 1;
    }
    r
}

} // verus!
