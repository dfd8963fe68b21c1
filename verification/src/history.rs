//! The history of invocations, and the messages that a run leaves for its
//! end.

use vstd::prelude::*;
use crate::paths::{path_name, path_name_of};
use crate::text::{
    append_chars, append_str, chars_of, copy_text, decimal, decimal_text, join_texts, joined,
    push_text, reads_as, text_of,
};

verus! {

/// An argument as the history shows it: an option as it is, anything else
/// between single quotes.
pub open spec fn shown_argument(arg: Seq<char>) -> Seq<char> {
    if arg.len() > 0 && arg[0] == '-' {
        arg
    } else {
        "'"@ + arg + "'"@
    }
}

/// The line of the history for one invocation: the time between square
/// brackets, then the arguments.
pub open spec fn history_line(time: Seq<char>, argv: Seq<Seq<char>>) -> Seq<char> {
    "["@ + time + "] "@ + joined(argv.map_values(|a: Seq<char>| shown_argument(a)), " "@)
}

/// The line of the history for one invocation.
pub fn history_entry(time: &str, argv: &Vec<String>) -> (r: String)
    ensures
        r@ == history_line(time@, argv.deep_view()),
{
    let mut shown: Vec<String> = Vec::new();
    let ghost all = argv.deep_view();
    let ghost want = all.map_values(|a: Seq<char>| shown_argument(a));
    let mut i: usize = 0;
    proof {
        assert(shown.deep_view() =~= want.take(0));
    }
    while i < argv.len()
        invariant
            i <= argv.len(),
            all == argv.deep_view(),
            want == all.map_values(|a: Seq<char>| shown_argument(a)),
            shown.deep_view() == want.take(i as int),
        decreases argv.len() - i,
    {
        let v = chars_of(argv[i].as_str());
        let text = if v.len() > 0 && v[0] == '-' {
            text_of(&v)
        } else {
            let mut q = chars_of("'");
            append_chars(&mut q, &v);
            append_str(&mut q, "'");
            text_of(&q)
        };
        proof {
            assert(all[i as int] == argv@[i as int]@);
            assert(want.take(i + 1) =~= want.take(i as int).push(want[i as int]));
        }
        push_text(&mut shown, text);
        i = i + 1;
    }
    proof {
        assert(want.take(argv.len() as int) =~= want);
    }
    let mut out = chars_of("[");
    append_str(&mut out, time);
    append_str(&mut out, "] ");
    append_str(&mut out, join_texts(&shown, " ").as_str());
    text_of(&out)
}

/// The history after an invocation at `time` with the arguments `argv`: the
/// new line first, the old lines behind it; and the text of the history
/// file, one line for each.
pub fn write_history(old: &Vec<String>, time: &str, argv: &Vec<String>) -> (r: (
    Vec<String>,
    String,
))
    ensures
        r.0.deep_view() == seq![history_line(time@, argv.deep_view())] + old.deep_view(),
        r.1@ == joined(r.0.deep_view(), "\n"@),
{
    let mut history: Vec<String> = Vec::new();
    push_text(&mut history, history_entry(time, argv));
    let ghost head = history.deep_view();
    let ghost rest = old.deep_view();
    let mut i: usize = 0;
    proof {
        assert(head =~= seq![history_line(time@, argv.deep_view())]);
        assert(head + rest.take(0) =~= head);
    }
    while i < old.len()
        invariant
            i <= old.len(),
            rest == old.deep_view(),
            history.deep_view() == head + rest.take(i as int),
        decreases old.len() - i,
    {
        push_text(&mut history, copy_text(old[i].as_str()));
        proof {
            assert(rest[i as int] == old@[i as int]@);
            assert(head + rest.take(i + 1) =~= (head + rest.take(i as int)).push(rest[i as int]));
        }
        i = i + 1;
    }
    proof {
        assert(rest.take(old.len() as int) =~= rest);
    }
    let data = join_texts(&history, "\n");
    (history, data)
}

/// What a run says of its history at its end: how many entries the history
/// holds, or that it could not be written, and why.
pub open spec fn history_note(outcome: Result<int, Seq<char>>) -> Seq<char> {
    match outcome {
        Ok(size) => decimal(size as nat) + " entries in history"@,
        Err(why) => "failed to write to history: "@ + why,
    }
}

/// What a run says of its history at its end.
pub fn history_message(outcome: Result<usize, String>) -> (r: String)
    ensures
        r@ == history_note(
            match outcome {
                Ok(size) => Ok(size as int),
                Err(why) => Err(why@),
            },
        ),
{
    match outcome {
        Ok(size) => {
            let mut out = decimal_text(size as u64);
            append_str(&mut out, " entries in history");
            text_of(&out)
        },
        Err(why) => {
            let mut out = chars_of("failed to write to history: ");
            append_str(&mut out, why.as_str());
            text_of(&out)
        },
    }
}

/// `n` spaces; none where `n` is not positive.
pub open spec fn spaces(n: int) -> Seq<char> {
    Seq::new(
        if n > 0 {
            n as nat
        } else {
            0
        },
        |i: int| ' ',
    )
}

/// A message of the run's end as it is printed: its number among `count`
/// messages, padded to the width of `count`, and the message.
pub open spec fn post_run_line(number: nat, count: nat, message: Seq<char>) -> Seq<char> {
    "[post-run-message "@ + spaces(decimal(count).len() - decimal(number).len()) + decimal(number)
        + "/"@ + decimal(count) + "] "@ + message
}

/// The messages of the run's end as they are printed, in order.
pub fn post_run_lines(messages: &Vec<String>) -> (r: Vec<String>)
    ensures
        r.deep_view() == Seq::new(
            messages.len() as nat,
            |i: int| post_run_line((i + 1) as nat, messages.len() as nat, messages.deep_view()[i]),
        ),
{
    let count = decimal_text(messages.len() as u64);
    let ghost all = messages.deep_view();
    let ghost want = Seq::new(
        messages.len() as nat,
        |i: int| post_run_line((i + 1) as nat, messages.len() as nat, all[i]),
    );
    let mut out: Vec<String> = Vec::new();
    let mut i: usize = 0;
    proof {
        assert(out.deep_view() =~= want.take(0));
    }
    while i < messages.len()
        invariant
            i <= messages.len(),
            all == messages.deep_view(),
            count@ == decimal(messages.len() as nat),
            want == Seq::new(
                messages.len() as nat,
                |i: int| post_run_line((i + 1) as nat, messages.len() as nat, all[i]),
            ),
            out.deep_view() == want.take(i as int),
        decreases messages.len() - i,
    {
        let number = decimal_text((i + 1) as u64);
        let mut line = chars_of("[post-run-message ");
        let ghost head = line@;
        let mut width: usize = number.len();
        while width < count.len()
            invariant
                number.len() <= width,
                width <= count.len() || width == number.len(),
                line@ =~= head + spaces(width - number.len()),
            decreases count.len() - width,
        {
            line.push(' ');
            width = width + 1;
        }
        proof {
            assert(line@ =~= head + spaces(count.len() - number.len()));
        }
        append_chars(&mut line, &number);
        append_str(&mut line, "/");
        append_chars(&mut line, &count);
        append_str(&mut line, "] ");
        append_str(&mut line, messages[i].as_str());
        proof {
            assert(all[i as int] == messages@[i as int]@);
            assert(want.take(i + 1) =~= want.take(i as int).push(want[i as int]));
        }
        push_text(&mut out, text_of(&line));
        i = i + 1;
    }
    proof {
        assert(want.take(messages.len() as int) =~= want);
    }
    out
}

/// The arguments that the parser is to read. Called as `cargo craft ...`,
/// the program sees `craft` behind its own name: then the program's name is
/// dropped, so that `craft` stands for it.
pub open spec fn parser_arguments(argv: Seq<Seq<char>>) -> Seq<Seq<char>> {
    if argv.len() > 1 && (path_name_of(argv[0]) == "cargo"@ || path_name_of(argv[0])
        == "cargo-craft"@) && argv[1] == "craft"@ {
        argv.skip(1)
    } else {
        argv
    }
}

/// The arguments that the parser is to read, from those of the process.
pub fn executer_args(argv: &Vec<String>) -> (r: Vec<String>)
    ensures
        r.deep_view() == parser_arguments(argv.deep_view()),
{
    let ghost all = argv.deep_view();
    let mut from: usize = 0;
    if argv.len() > 1 {
        let name = chars_of(path_name(argv[0].as_str()).as_str());
        proof {
            assert(all[0] == argv@[0]@);
            assert(all[1] == argv@[1]@);
        }
        if (reads_as(&name, "cargo") || reads_as(&name, "cargo-craft")) && reads_as(
            &chars_of(argv[1].as_str()),
            "craft",
        ) {
            from = 1;
        }
    }
    let mut out: Vec<String> = Vec::new();
    let mut i: usize = from;
    proof {
        assert(out.deep_view() =~= all.subrange(from as int, from as int));
    }
    while i < argv.len()
        invariant
            from <= i <= argv.len(),
            all == argv.deep_view(),
            out.deep_view() == all.subrange(from as int, i as int),
        decreases argv.len() - i,
    {
        push_text(&mut out, copy_text(argv[i].as_str()));
        proof {
            assert(all[i as int] == argv@[i as int]@);
            assert(all.subrange(from as int, i + 1) =~= all.subrange(from as int, i as int).push(
                all[i as int],
            ));
        }
        i = i + 1;
    }
    proof {
        assert(all.subrange(from as int, argv.len() as int) =~= all.skip(from as int));
        assert(all.skip(0) =~= all);
    }
    out
}

} // verus!
