//! The functions that the runtime itself supplies: `print` and `exit`.
//!
//! They compute what is to happen, the line to write and the code to leave
//! with; writing the line and ending the process are left to the program
//! that embeds the interpreter.

use crate::environment::{NativeAnswer, NativeEffect, NativeEffectView, NativeFunction};
use crate::error::RuntimeError;
use crate::value::{spec_as_integer, spec_as_string, views, InterpretValue, ValueView};
use vstd::prelude::*;
use vstd::string::*;

verus! {

/// The canonical texts of a sequence of values.
pub open spec fn texts(values: Seq<ValueView>) -> Seq<Seq<char>> {
    Seq::new(values.len(), |i: int| spec_as_string(values[i]))
}

/// Whether the two characters `{}` stand at the head of a text.
pub open spec fn starts_with_placeholder(text: Seq<char>) -> bool {
    text.len() >= 2 && text[0] == '{' && text[1] == '}'
}

/// A template with its placeholders filled in: reading from the left, each
/// `{}` gives way to the next text that is left; once the texts run out the
/// rest of the template stands as it is, and texts that are left over are
/// dropped.
pub open spec fn format_template(template: Seq<char>, fill: Seq<Seq<char>>) -> Seq<char>
    decreases template.len(),
{
    if fill.len() == 0 || template.len() == 0 {
        template
    } else if starts_with_placeholder(template) {
        fill[0] + format_template(template.subrange(2, template.len() as int), fill.drop_first())
    } else {
        seq![template[0]] + format_template(template.subrange(1, template.len() as int), fill)
    }
}

/// The texts of the values, each followed by a space.
pub open spec fn spaced(values: Seq<ValueView>) -> Seq<char>
    decreases values.len(),
{
    if values.len() == 0 {
        Seq::empty()
    } else {
        spaced(values.drop_last()) + spec_as_string(values.last()) + seq![' ']
    }
}

/// The line that `print` writes, without the line break that ends it:
/// nothing for no argument; the text of a single argument; for a text
/// followed by more arguments, the text as a template that they fill; and
/// otherwise every argument's text followed by a space.
pub open spec fn spec_print(args: Seq<ValueView>) -> Seq<char> {
    if args.len() == 0 {
        Seq::empty()
    } else if args.len() == 1 {
        spec_as_string(args[0])
    } else if args[0] is Str {
        format_template(args[0]->Str_0, texts(args.drop_first()))
    } else {
        spaced(args)
    }
}

/// The code that `exit` leaves with: zero without an argument, else the
/// first argument as an integer, cut to 32 bits.
pub open spec fn spec_exit(args: Seq<ValueView>) -> i32 {
    if args.len() == 0 {
        0
    } else {
        spec_as_integer(args[0]) as i32
    }
}

/// Fills the placeholders of a template with the texts of `args[1..]`.
fn fill_template(template: &str, args: &Vec<InterpretValue>) -> (line: String)
    requires
        args@.len() >= 1,
    ensures
        line@ == format_template(template@, texts(views(args@).drop_first())),
{
    let n = template.unicode_len();
    let ghost fill = texts(views(args@).drop_first());
    let mut line = String::new();
    let mut i: usize = 0;
    let mut next: usize = 1;
    assert(template@.subrange(0, n as int) =~= template@);
    assert(fill.subrange(0, fill.len() as int) =~= fill);
    while i < n
        invariant
            i <= n,
            n == template@.len(),
            1 <= next <= args@.len(),
            fill == texts(views(args@).drop_first()),
            format_template(template@, fill) == line@ + format_template(
                template@.subrange(i as int, n as int),
                fill.subrange(next - 1, fill.len() as int),
            ),
        decreases n - i,
    {
        let ghost rest = template@.subrange(i as int, n as int);
        let ghost left = fill.subrange(next - 1, fill.len() as int);
        let placeholder = next < args.len() && i + 1 < n && template.get_char(i) == '{'
            && template.get_char(i + 1) == '}';
        if placeholder {
            let text = args[next].as_string();
            proof {
                assert(starts_with_placeholder(rest));
                assert(left[0] == text@);
                assert(rest.subrange(2, rest.len() as int) =~= template@.subrange(
                    i + 2,
                    n as int,
                ));
                assert(left.drop_first() =~= fill.subrange(next as int, fill.len() as int));
            }
            line.append(text.as_str());
            next = next + 1;
            i = i + 2;
        } else {
            let piece = template.substring_char(i, i + 1);
            proof {
                assert(piece@ =~= seq![template@[i as int]]);
                assert(rest.subrange(1, rest.len() as int) =~= template@.subrange(
                    i + 1,
                    n as int,
                ));
                if left.len() == 0 {
                    assert(rest =~= seq![rest[0]] + rest.subrange(1, rest.len() as int));
                } else {
                    assert(!starts_with_placeholder(rest));
                }
            }
            line.append(piece);
            i = i + 1;
        }
        proof {
            assert(format_template(template@, fill) =~= line@ + format_template(
                template@.subrange(i as int, n as int),
                fill.subrange(next - 1, fill.len() as int),
            ));
        }
    }
    assert(line@ =~= format_template(template@, fill));
    line
}

/// The text of every argument, each followed by a space.
fn join_spaced(args: &Vec<InterpretValue>) -> (line: String)
    ensures
        line@ == spaced(views(args@)),
{
    let mut line = String::new();
    let mut i: usize = 0;
    proof {
        reveal_strlit(" ");
    }
    while i < args.len()
        invariant
            i <= args@.len(),
            " "@ == seq![' '],
            line@ == spaced(views(args@).subrange(0, i as int)),
        decreases args@.len() - i,
    {
        let text = args[i].as_string();
        proof {
            let now = views(args@).subrange(0, i + 1);
            assert(now.drop_last() =~= views(args@).subrange(0, i as int));
            assert(now.last() == args@[i as int]@);
        }
        line.append(text.as_str());
        line.append(" ");
        i = i + 1;
    }
    assert(views(args@).subrange(0, i as int) =~= views(args@));
    line
}

/// Computes the line that `print` writes for its arguments, without the
/// line break that ends it.
pub fn print(args: &Vec<InterpretValue>) -> (line: String)
    ensures
        line@ == spec_print(views(args@)),
{
    if args.len() == 0 {
        String::new()
    } else if args.len() == 1 {
        args[0].as_string()
    } else {
        match &args[0] {
            InterpretValue::String(template) => fill_template(template.as_str(), args),
            _ => join_spaced(args),
        }
    }
}

/// Computes the code that `exit` ends the run with.
pub fn exit(args: &Vec<InterpretValue>) -> (code: i32)
    ensures
        code == spec_exit(views(args@)),
{
    if args.len() == 0 {
        0
    } else {
        #[verifier::truncate]
        (args[0].as_integer() as i32)
    }
}

/// The functions that every run begins with.
#[derive(Clone, Copy, Debug, PartialEq, Eq, Structural)]
pub enum Intrinsic {
    /// Writes a line of output.
    Print,
    /// Ends the run with an exit code.
    Exit,
}

impl NativeFunction for Intrinsic {
    open spec fn promised(&self, args: Seq<ValueView>) -> Option<NativeAnswer> {
        match self {
            Intrinsic::Print => Some(Ok(NativeEffectView::Line(spec_print(args)))),
            Intrinsic::Exit => Some(Ok(NativeEffectView::Exit(spec_exit(args)))),
        }
    }

    fn call(&self, args: Vec<InterpretValue>) -> (r: Result<NativeEffect, RuntimeError>) {
        match self {
            Intrinsic::Print => Ok(NativeEffect::Line(print(&args))),
            Intrinsic::Exit => Ok(NativeEffect::Exit(exit(&args))),
        }
    }
}

} // verus!
