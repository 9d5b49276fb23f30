//! Command lines: the program and the arguments that a flow hands to the
//! system, stated as values before anything is run.

use crate::text::{from_chars, opt, strs};
use vstd::prelude::*;

verus! {

/// A program and its arguments.
#[derive(Debug, Clone)]
pub struct CommandLine {
    pub program: String,
    pub args: Vec<String>,
}

/// What a `CommandLine` holds, as plain values.
pub struct CommandLineView {
    pub program: Seq<char>,
    pub args: Seq<Seq<char>>,
}

impl View for CommandLine {
    type V = CommandLineView;

    open spec fn view(&self) -> CommandLineView {
        CommandLineView { program: self.program@, args: strs(self.args@) }
    }
}

/// The character of a decimal digit.
pub open spec fn digit(d: nat) -> char {
    if d == 0 {
        '0'
    } else if d == 1 {
        '1'
    } else if d == 2 {
        '2'
    } else if d == 3 {
        '3'
    } else if d == 4 {
        '4'
    } else if d == 5 {
        '5'
    } else if d == 6 {
        '6'
    } else if d == 7 {
        '7'
    } else if d == 8 {
        '8'
    } else {
        '9'
    }
}

/// A number written in decimal digits, without leading zeros.
pub open spec fn decimal(n: nat) -> Seq<char>
    decreases n,
{
    if n < 10 {
        seq![digit(n)]
    } else {
        decimal(n / 10).push(digit(n % 10))
    }
}

/// The arguments that say how many generations to keep; none where the
/// configuration does not say.
pub open spec fn generation_args(generations: Option<u32>) -> Seq<Seq<char>> {
    match generations {
        Some(g) => seq!["--generations"@, decimal(g as nat)],
        None => Seq::empty(),
    }
}

/// The arguments that name a flake; none where there is no flake.
pub open spec fn flake_args(flake: Option<Seq<char>>) -> Seq<Seq<char>> {
    match flake {
        Some(f) => seq!["--flake"@, f],
        None => Seq::empty(),
    }
}

fn digit_char(d: u32) -> (c: char)
    requires
        d < 10,
    ensures
        c == digit(d as nat),
{
    if d == 0 {
        '0'
    } else if d == 1 {
        '1'
    } else if d == 2 {
        '2'
    } else if d == 3 {
        '3'
    } else if d == 4 {
        '4'
    } else if d == 5 {
        '5'
    } else if d == 6 {
        '6'
    } else if d == 7 {
        '7'
    } else if d == 8 {
        '8'
    } else {
        '9'
    }
}

fn push_decimal(out: &mut Vec<char>, n: u32)
    ensures
        final(out)@ == old(out)@ + decimal(n as nat),
    decreases n,
{
    if n >= 10 {
        push_decimal(out, n / 10);
    }
    out.push(digit_char(n % 10));
    proof {
        if n < 10 {
            assert(out@ =~= old(out)@ + decimal(n as nat));
        } else {
            assert(out@ =~= old(out)@ + decimal(n as nat));
        }
    }
}

/// The number in decimal digits.
pub fn number(n: u32) -> (out: String)
    ensures
        out@ == decimal(n as nat),
{
    let mut chars: Vec<char> = Vec::new();
    push_decimal(&mut chars, n);
    proof {
        assert(chars@ =~= decimal(n as nat));
    }
    from_chars(&chars)
}

/// Appends one argument.
pub fn push_arg(args: &mut Vec<String>, arg: &str)
    ensures
        strs(final(args)@) == strs(old(args)@).push(arg@),
{
    let ghost before = strs(args@);
    args.push(arg.to_owned());
    proof {
        assert(strs(args@) =~= before.push(arg@));
    }
}

/// Appends the arguments that say how many generations to keep.
pub fn push_generations(args: &mut Vec<String>, generations: Option<u32>)
    ensures
        strs(final(args)@) == strs(old(args)@) + generation_args(generations),
{
    let ghost before = strs(args@);
    match generations {
        Some(g) => {
            push_arg(args, "--generations");
            push_arg(args, number(g).as_str());
            proof {
                assert(strs(args@) =~= before + generation_args(generations));
            }
        },
        None => {
            proof {
                assert(strs(args@) =~= before + generation_args(generations));
            }
        },
    }
}

/// Appends the arguments that name a flake.
pub fn push_flake(args: &mut Vec<String>, flake: &Option<String>)
    ensures
        strs(final(args)@) == strs(old(args)@) + flake_args(opt(*flake)),
{
    let ghost before = strs(args@);
    match flake {
        Some(f) => {
            push_arg(args, "--flake");
            push_arg(args, f.as_str());
            proof {
                assert(strs(args@) =~= before + flake_args(opt(*flake)));
            }
        },
        None => {
            proof {
                assert(strs(args@) =~= before + flake_args(opt(*flake)));
            }
        },
    }
}

/// Appends every one of `more`.
pub fn push_all(args: &mut Vec<String>, more: &Vec<String>)
    ensures
        strs(final(args)@) == strs(old(args)@) + strs(more@),
{
    let ghost before = strs(args@);
    let mut i: usize = 0;
    proof {
        assert(strs(args@) =~= before + strs(more@).take(0));
    }
    while i < more.len()
        invariant
            i <= more.len(),
            strs(args@) == before + strs(more@).take(i as int),
        decreases more.len() - i,
    {
        push_arg(args, more[i].as_str());
        proof {
            assert(before + strs(more@).take(i + 1) =~= (before + strs(more@).take(i as int)).push(
                more@[i as int]@,
            ));
        }
        i += 1;
    }
    proof {
        assert(strs(more@).take(more@.len() as int) =~= strs(more@));
    }
}

} // verus!
