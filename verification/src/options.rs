//! The options of a build, as given on the command line.

use vstd::prelude::*;
use crate::text::{chars_of, same_text, text_view, texts};

verus! {

/// Where the site is written when no directory is given.
pub const DEFAULT_OUTPUT: &'static str = "./output/";

/// The options of a build: where to write the site, and whether the build is
/// for publishing.
#[derive(Debug)]
pub struct Options {
    pub output: String,
    pub publish: bool,
}

/// The model of an `Options`.
pub struct OptionsView {
    pub output: Seq<char>,
    pub publish: bool,
}

impl View for Options {
    type V = OptionsView;

    open spec fn view(&self) -> OptionsView {
        OptionsView { output: self.output@, publish: self.publish }
    }
}

/// An argument is a flag when it starts with a dash and holds more than the
/// dash.
pub open spec fn is_flag(arg: Seq<char>) -> bool {
    arg.len() >= 2 && arg[0] == '-'
}

/// The flags that ask for a build for publishing.
pub open spec fn is_publish_flag(arg: Seq<char>) -> bool {
    arg == "-p"@ || arg == "-pub"@ || arg == "--pub"@ || arg == "-publish"@ || arg == "--publish"@
}

/// The first position at or after `from` that holds a flag that is not
/// known, or the length where there is none.
pub open spec fn first_unknown_flag(args: Seq<Seq<char>>, from: int) -> int
    decreases args.len() - from,
{
    if 0 <= from < args.len() && !(is_flag(args[from]) && !is_publish_flag(args[from])) {
        first_unknown_flag(args, from + 1)
    } else {
        from
    }
}

/// The last argument that is not a flag.
pub open spec fn last_output(args: Seq<Seq<char>>) -> Option<Seq<char>>
    decreases args.len(),
{
    if args.len() == 0 {
        None
    } else if !is_flag(args.last()) {
        Some(args.last())
    } else {
        last_output(args.drop_last())
    }
}

/// Some argument asks for a build for publishing.
pub open spec fn wants_publish(args: Seq<Seq<char>>) -> bool {
    exists|i: int| 0 <= i < args.len() && is_flag(#[trigger] args[i]) && is_publish_flag(args[i])
}

/// The options that the arguments give, or the first flag that is not known.
///
/// The last argument that is not a flag names the output directory, which is
/// `DEFAULT_OUTPUT` where there is none.
pub open spec fn options_spec(args: Seq<Seq<char>>) -> Result<OptionsView, Seq<char>> {
    let k = first_unknown_flag(args, 0);
    if 0 <= k < args.len() {
        Err(args[k])
    } else {
        Ok(
            OptionsView {
                output: match last_output(args) {
                    Some(o) => o,
                    None => DEFAULT_OUTPUT@,
                },
                publish: wants_publish(args),
            },
        )
    }
}

/// The model of an options reading's outcome.
pub open spec fn options_result_view(r: Result<Options, String>) -> Result<OptionsView, Seq<char>> {
    match r {
        Ok(o) => Ok(o@),
        Err(e) => Err(e@),
    }
}

/// Tells whether an argument is a flag.
pub fn arg_is_flag(arg: &str) -> (r: bool)
    ensures
        r == is_flag(arg@),
{
    let text = chars_of(arg);
    text.len() >= 2 && text[0] == '-'
}

/// Tells whether an argument asks for a build for publishing.
pub fn arg_is_publish_flag(arg: &str) -> (r: bool)
    ensures
        r == is_publish_flag(arg@),
{
    same_text(arg, "-p") || same_text(arg, "-pub") || same_text(arg, "--pub") || same_text(
        arg,
        "-publish",
    ) || same_text(arg, "--publish")
}

/// The options under construction.
#[derive(Debug)]
struct OptionsBuilder {
    output: Option<String>,
    publish: bool,
}

impl Options {
    /// The options that a builder stands for.
    fn from_builder(builder: OptionsBuilder) -> (o: Options)
        ensures
            o.publish == builder.publish,
            o.output@ == match text_view(builder.output) {
                Some(out) => out,
                None => DEFAULT_OUTPUT@,
            },
    {
        Options {
            output: match builder.output {
                Some(out) => out,
                None => DEFAULT_OUTPUT.to_owned(),
            },
            publish: builder.publish,
        }
    }

    /// Reads the options from the arguments of the program, the program's
    /// own name left out.
    ///
    /// Fails exactly when an argument is a flag that is not known, with the
    /// first such argument.
    pub fn from_args(args: &Vec<String>) -> (r: Result<Options, String>)
        ensures
            options_result_view(r) == options_spec(texts(args@)),
    {
        let ghost model = texts(args@);
        let mut builder = OptionsBuilder { output: None, publish: false };
        let mut i: usize = 0;
        while i < args.len()
            invariant
                i <= args.len(),
                model == texts(args@),
                first_unknown_flag(model, 0) == first_unknown_flag(model, i as int),
                text_view(builder.output) == last_output(model.take(i as int)),
                builder.publish == wants_publish(model.take(i as int)),
            decreases args.len() - i,
        {
            let arg = args[i].as_str();
            let ghost seen = model.take(i as int);
            let ghost next = model.take(i + 1);
            proof {
                assert(next.drop_last() =~= seen);
                assert(next.last() == arg@);
                assert(model[i as int] == arg@);
            }
            if arg_is_flag(arg) {
                if arg_is_publish_flag(arg) {
                    builder.publish = true;
                    proof {
                        assert(next[i as int] == arg@);
                    }
                } else {
                    return Err(args[i].clone());
                }
            } else {
                builder.output = Some(args[i].clone());
            }
            proof {
                if wants_publish(seen) {
                    let w = choose|w: int|
                        0 <= w < seen.len() && is_flag(#[trigger] seen[w]) && is_publish_flag(
                            seen[w],
                        );
                    assert(next[w] == seen[w]);
                }
                if wants_publish(next) && !(is_flag(arg@) && is_publish_flag(arg@)) {
                    let w = choose|w: int|
                        0 <= w < next.len() && is_flag(#[trigger] next[w]) && is_publish_flag(
                            next[w],
                        );
                    assert(seen[w] == next[w]);
                }
            }
            i += 1;
        }
        proof {
            assert(model.take(i as int) =~= model);
        }
        Ok(Options::from_builder(builder))
    }
}

} // verus!
