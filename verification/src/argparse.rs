//! Command-line option parsing.
//!
//! The program takes its configuration as flag/value pairs: which
//! keyboard device to read, and either a sample file to loop or a
//! waveform name. The parser walks the arguments two at a time; each
//! flag may be given at most once, the keyboard flag is required, and
//! anything unrecognized rejects the whole command line.

use vstd::prelude::*;
use crate::str_is;

verus! {

/// The program's configuration options.
#[derive(Debug)]
pub struct Opt {
    /// The keyboard input device to read note events from.
    pub keyboard: String,
    /// A sample file to play as a looped voice, if given.
    pub sampler: Option<String>,
    /// A waveform name for the synthetic voice, if given.
    pub wave: Option<String>,
}

/// The views of an optional argument value.
pub open spec fn ov(o: Option<String>) -> Option<Seq<char>> {
    match o {
        Some(s) => Some(s@),
        None => None,
    }
}

/// Parse the arguments from position `i` on, with the values gathered so
/// far: flag/value pairs, each flag at most once, and the keyboard flag
/// required by the end. `None` is a rejected command line.
pub open spec fn parse_from(
    args: Seq<Seq<char>>,
    i: int,
    kb: Option<Seq<char>>,
    sp: Option<Seq<char>>,
    wv: Option<Seq<char>>,
) -> Option<(Seq<char>, Option<Seq<char>>, Option<Seq<char>>)>
    decreases args.len() - i,
{
    if i >= args.len() {
        match kb {
            Some(k) => Some((k, sp, wv)),
            None => None,
        }
    } else if i + 1 >= args.len() {
        None
    } else {
        let f = args[i];
        let v = args[i + 1];
        if (f == "--keyboard"@ || f == "-k"@) && kb is None {
            parse_from(args, i + 2, Some(v), sp, wv)
        } else if f == "--sampler"@ && sp is None {
            parse_from(args, i + 2, kb, Some(v), wv)
        } else if f == "--wave"@ && wv is None {
            parse_from(args, i + 2, kb, sp, Some(v))
        } else {
            None
        }
    }
}

/// What a whole command line parses to.
pub open spec fn parse_spec(args: Seq<Seq<char>>) -> Option<
    (Seq<char>, Option<Seq<char>>, Option<Seq<char>>),
> {
    parse_from(args, 0, None, None, None)
}

/// Parse the program's arguments (without the program name itself):
/// `None` when the command line is rejected, the gathered options
/// otherwise.
pub fn args(argv: &Vec<String>) -> (r: Option<Opt>)
    ensures
        ({
            let p = parse_spec(argv@.map_values(|s: String| s@));
            match r {
                Some(o) => p matches Some(t) && o.keyboard@ == t.0 && ov(o.sampler) == t.1
                    && ov(o.wave) == t.2,
                None => p is None,
            }
        }),
{
    let ghost vs = argv@.map_values(|s: String| s@);
    let mut kb: Option<String> = None;
    let mut sp: Option<String> = None;
    let mut wv: Option<String> = None;
    let mut i: usize = 0;
    while i < argv.len()
        invariant
            i <= argv@.len(),
            vs == argv@.map_values(|s: String| s@),
            vs.len() == argv@.len(),
            parse_spec(vs) == parse_from(vs, i as int, ov(kb), ov(sp), ov(wv)),
        decreases argv@.len() - i,
    {
        if i + 1 >= argv.len() {
            return None;
        }
        proof {
            assert(vs[i as int] == argv@[i as int]@);
            assert(vs[i + 1 as int] == argv@[i + 1 as int]@);
        }
        let flag = &argv[i];
        let val = &argv[i + 1];
        if (str_is(flag, "--keyboard") || str_is(flag, "-k")) && kb.is_none() {
            kb = Some(val.clone());
        } else if str_is(flag, "--sampler") && sp.is_none() {
            sp = Some(val.clone());
        } else if str_is(flag, "--wave") && wv.is_none() {
            wv = Some(val.clone());
        } else {
            return None;
        }
        i = i + 2;
    }
    match kb {
        Some(k) => Some(Opt { keyboard: k, sampler: sp, wave: wv }),
        None => None,
    }
}

} // verus!
