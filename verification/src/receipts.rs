//! The receipt log: how a log that may be malformed is read, attempt by
//! attempt, and what is written back.

use vstd::prelude::*;
use crate::errors::Error;
use crate::text::{
    append_chars, append_str, char_is_space, chars_of, copy_text, decimal, decimal_text, free_of,
    is_space, join_texts, joined, lemma_split_joined, push_text, split_on, text_of,
};

verus! {

/// One attempt at the log that failed: what was being read, and the
/// parser's words.
#[derive(Debug, Clone, PartialEq, Eq)]
pub struct ReadFault {
    /// What was being read.
    pub location: String,
    /// Why it could not be read.
    pub error: String,
}

/// What a failed attempt holds.
pub struct ReadFaultView {
    pub location: Seq<char>,
    pub error: Seq<char>,
}

impl View for ReadFault {
    type V = ReadFaultView;

    open spec fn view(&self) -> ReadFaultView {
        ReadFaultView { location: self.location@, error: self.error@ }
    }
}

/// What each failed attempt of a list holds.
pub open spec fn fault_views(faults: Seq<ReadFault>) -> Seq<ReadFaultView> {
    faults.map_values(|f: ReadFault| f@)
}

/// What to do next with the log.
#[derive(Debug, Clone, Copy, PartialEq, Eq, Structural)]
pub enum ReadAction {
    /// Parse the whole file as one record.
    ParseWhole,
    /// Parse the whole file as an array of records.
    ParseArray,
    /// Reading is over.
    Finish,
}

/// Where reading stands.
#[derive(Debug, Clone, Copy, PartialEq, Eq, Structural)]
pub enum ReadStage {
    /// The whole file is being tried as one record.
    Whole,
    /// The whole file is being tried as an array.
    Array,
    /// Reading is over.
    Over,
}

/// The reading of a log in progress: the records found, the attempts that
/// failed, and where reading stands.
#[derive(Debug)]
pub struct ReceiptReader<T> {
    /// The records read.
    pub receipts: Vec<T>,
    /// The attempts that failed.
    pub errors: Vec<ReadFault>,
    /// Where reading stands.
    pub stage: ReadStage,
}

/// What a line's outcome holds: the record, or the parser's words.
pub open spec fn line_view<T>(r: Result<T, String>) -> Result<T, Seq<char>> {
    match r {
        Ok(t) => Ok(t),
        Err(e) => Err(e@),
    }
}

/// The name of a line in the list of failed attempts; lines count from 1.
pub open spec fn line_label(number: nat) -> Seq<char> {
    "json ld from line "@ + decimal(number)
}

/// The records among the outcomes of the lines, in order.
pub open spec fn records_of<T>(lines: Seq<Result<T, String>>) -> Seq<T>
    decreases lines.len(),
{
    if lines.len() == 0 {
        Seq::empty()
    } else {
        match lines.last() {
            Ok(t) => records_of(lines.drop_last()).push(t),
            Err(_) => records_of(lines.drop_last()),
        }
    }
}

/// The failures among the outcomes of the lines, each under the number of
/// its line, in order.
pub open spec fn line_faults<T>(lines: Seq<Result<T, String>>) -> Seq<ReadFaultView>
    decreases lines.len(),
{
    if lines.len() == 0 {
        Seq::empty()
    } else {
        match lines.last() {
            Ok(_) => line_faults(lines.drop_last()),
            Err(e) => line_faults(lines.drop_last()).push(
                ReadFaultView { location: line_label(lines.len()), error: e@ },
            ),
        }
    }
}

/// The failure of the attempt at the whole file as one record.
pub open spec fn whole_fault(error: Seq<char>) -> ReadFaultView {
    ReadFaultView { location: "json from entire file"@, error }
}

/// The failure of the attempt at the whole file as an array.
pub open spec fn array_fault(error: Seq<char>) -> ReadFaultView {
    ReadFaultView { location: "jsonld from entire file"@, error }
}

/// Every line failed, and there is at least one.
pub open spec fn all_lines_failed<T>(lines: Seq<Result<T, String>>) -> bool {
    lines.len() > 0 && line_faults(lines).len() == lines.len()
}

impl<T> ReceiptReader<T> {
    /// Begins with the outcomes of parsing the log line by line. Where no
    /// line failed, or some did and some did not, reading is over with the
    /// records and failures found. Where every line failed, the whole file
    /// is to be tried as one record.
    pub fn from_lines(lines: Vec<Result<T, String>>) -> (r: (ReceiptReader<T>, ReadAction))
        ensures
            r.0.receipts@ == records_of(lines@),
            fault_views(r.0.errors@) == line_faults(lines@),
            all_lines_failed(lines@) ==> r.0.stage == ReadStage::Whole && r.1
                == ReadAction::ParseWhole,
            !all_lines_failed(lines@) ==> r.0.stage == ReadStage::Over && r.1
                == ReadAction::Finish,
    {
        let mut receipts: Vec<T> = Vec::new();
        let mut errors: Vec<ReadFault> = Vec::new();
        let ghost all = lines@;
        let total = lines.len();
        let mut lines = lines;
        // The outcomes are taken from the back, so the lists are built in
        // reverse and turned round afterwards.
        let mut back_receipts: Vec<T> = Vec::new();
        let mut back_errors: Vec<ReadFault> = Vec::new();
        let mut n: usize = total;
        proof {
            assert(all.skip(total as int).len() == 0);
        }
        while n > 0
            invariant
                n <= total,
                total == all.len(),
                lines@ == all.take(n as int),
                back_receipts@.reverse() =~= records_tail(all, n as int),
                fault_views(back_errors@).reverse() =~= faults_tail(all, n as int),
            decreases n,
        {
            let ghost before_r = back_receipts@;
            let ghost before_e = fault_views(back_errors@);
            let item = lines.pop();
            proof {
                assert(all.take(n as int).drop_last() =~= all.take(n - 1));
                assert(all.take(n as int).last() == all[n - 1]);
            }
            match item {
                Some(Ok(t)) => {
                    back_receipts.push(t);
                    proof {
                        assert(back_receipts@.reverse() =~= seq![t] + before_r.reverse());
                    }
                },
                Some(Err(e)) => {
                    let mut label = chars_of("json ld from line ");
                    append_chars(&mut label, &decimal_text(n as u64));
                    let fault = ReadFault { location: text_of(&label), error: e };
                    back_errors.push(fault);
                    proof {
                        assert(fault_views(back_errors@) =~= before_e.push(fault@));
                        assert(fault_views(back_errors@).reverse() =~= seq![fault@]
                            + before_e.reverse());
                    }
                },
                None => {},
            }
            n = n - 1;
        }
        proof {
            lemma_tails(all, 0);
        }
        while back_receipts.len() > 0
            invariant
                receipts@ + back_receipts@.reverse() =~= records_of(all),
            decreases back_receipts.len(),
        {
            let ghost before = back_receipts@;
            match back_receipts.pop() {
                Some(t) => {
                    receipts.push(t);
                    proof {
                        assert(before.reverse() =~= seq![t] + before.drop_last().reverse());
                    }
                },
                None => {},
            }
        }
        while back_errors.len() > 0
            invariant
                fault_views(errors@) + fault_views(back_errors@).reverse() =~= line_faults(all),
            decreases back_errors.len(),
        {
            let ghost before = fault_views(back_errors@);
            let ghost done = fault_views(errors@);
            match back_errors.pop() {
                Some(f) => {
                    errors.push(f);
                    proof {
                        assert(fault_views(back_errors@) =~= before.drop_last());
                        assert(fault_views(errors@) =~= done.push(f@));
                        assert(before.reverse() =~= seq![f@] + before.drop_last().reverse());
                    }
                },
                None => {},
            }
        }
        proof {
            assert(receipts@ =~= records_of(all));
            assert(fault_views(errors@) =~= line_faults(all));
            assert(fault_views(errors@).len() == errors@.len());
        }
        if total > 0 && errors.len() == total {
            (ReceiptReader { receipts, errors, stage: ReadStage::Whole }, ReadAction::ParseWhole)
        } else {
            (ReceiptReader { receipts, errors, stage: ReadStage::Over }, ReadAction::Finish)
        }
    }

    /// Takes in the attempt at the whole file as one record. A record ends
    /// the reading, with that record and no failure. A failure goes to the
    /// front of the failures, and the file is to be tried as an array. Where
    /// no such attempt was asked for, reading is over and nothing changes.
    pub fn whole(self, outcome: Result<T, String>) -> (r: (ReceiptReader<T>, ReadAction))
        ensures
            self.stage != ReadStage::Whole ==> r.0.receipts@ == self.receipts@ && r.0.errors@
                == self.errors@ && r.0.stage == ReadStage::Over && r.1 == ReadAction::Finish,
            self.stage == ReadStage::Whole ==> match outcome {
                Ok(t) => r.0.receipts@ == seq![t] && r.0.errors@.len() == 0 && r.0.stage
                    == ReadStage::Over && r.1 == ReadAction::Finish,
                Err(e) => r.0.receipts@ == self.receipts@ && fault_views(r.0.errors@) == seq![
                    whole_fault(e@),
                ] + fault_views(self.errors@) && r.0.stage == ReadStage::Array && r.1
                    == ReadAction::ParseArray,
            },
    {
        let mut reader = self;
        if reader.stage != ReadStage::Whole {
            reader.stage = ReadStage::Over;
            return (reader, ReadAction::Finish);
        }
        match outcome {
            Ok(t) => {
                let mut receipts: Vec<T> = Vec::new();
                receipts.push(t);
                proof {
                    assert(receipts@ =~= seq![t]);
                }
                (
                    ReceiptReader { receipts, errors: Vec::new(), stage: ReadStage::Over },
                    ReadAction::Finish,
                )
            },
            Err(e) => {
                let ghost before = fault_views(reader.errors@);
                let fault = ReadFault { location: copy_text("json from entire file"), error: e };
                reader.errors.insert(0, fault);
                proof {
                    assert(fault_views(reader.errors@) =~= seq![whole_fault(e@)] + before);
                }
                reader.stage = ReadStage::Array;
                (reader, ReadAction::ParseArray)
            },
        }
    }

    /// Takes in the attempt at the whole file as an array. Records end the
    /// reading, with those records and no failure. A failure goes to the
    /// end of the failures, and reading is over with what the lines gave.
    /// Where no such attempt was asked for, reading is over and nothing
    /// changes.
    pub fn array(self, outcome: Result<Vec<T>, String>) -> (r: (ReceiptReader<T>, ReadAction))
        ensures
            r.0.stage == ReadStage::Over,
            r.1 == ReadAction::Finish,
            self.stage != ReadStage::Array ==> r.0.receipts@ == self.receipts@ && r.0.errors@
                == self.errors@,
            self.stage == ReadStage::Array ==> match outcome {
                Ok(ts) => r.0.receipts@ == ts@ && r.0.errors@.len() == 0,
                Err(e) => r.0.receipts@ == self.receipts@ && fault_views(r.0.errors@)
                    == fault_views(self.errors@).push(array_fault(e@)),
            },
    {
        let mut reader = self;
        if reader.stage != ReadStage::Array {
            reader.stage = ReadStage::Over;
            return (reader, ReadAction::Finish);
        }
        match outcome {
            Ok(ts) => (
                ReceiptReader { receipts: ts, errors: Vec::new(), stage: ReadStage::Over },
                ReadAction::Finish,
            ),
            Err(e) => {
                let ghost before = fault_views(reader.errors@);
                let fault = ReadFault { location: copy_text("jsonld from entire file"), error: e };
                reader.errors.push(fault);
                proof {
                    assert(fault_views(reader.errors@) =~= before.push(array_fault(e@)));
                }
                reader.stage = ReadStage::Over;
                (reader, ReadAction::Finish)
            },
        }
    }

    /// The records read and the attempts that failed.
    pub fn finish(self) -> (r: (Vec<T>, Vec<ReadFault>))
        ensures
            r.0@ == self.receipts@,
            r.1@ == self.errors@,
    {
        (self.receipts, self.errors)
    }
}

/// The records among the outcomes from position `n` on.
pub open spec fn records_tail<T>(lines: Seq<Result<T, String>>, n: int) -> Seq<T>
    decreases lines.len() - n,
{
    if n < 0 || n >= lines.len() {
        Seq::empty()
    } else {
        match lines[n] {
            Ok(t) => seq![t] + records_tail(lines, n + 1),
            Err(_) => records_tail(lines, n + 1),
        }
    }
}

/// The failures among the outcomes from position `n` on.
pub open spec fn faults_tail<T>(lines: Seq<Result<T, String>>, n: int) -> Seq<ReadFaultView>
    decreases lines.len() - n,
{
    if n < 0 || n >= lines.len() {
        Seq::empty()
    } else {
        match lines[n] {
            Ok(_) => faults_tail(lines, n + 1),
            Err(e) => seq![ReadFaultView { location: line_label((n + 1) as nat), error: e@ }]
                + faults_tail(lines, n + 1),
        }
    }
}

/// Reading the outcomes from the front or from the back finds the same
/// records and the same failures.
proof fn lemma_tails<T>(lines: Seq<Result<T, String>>, n: int)
    requires
        0 <= n <= lines.len(),
    ensures
        records_of(lines.take(n)) + records_tail(lines, n) == records_of(lines),
        line_faults(lines.take(n)) + faults_tail(lines, n) == line_faults(lines),
    decreases lines.len() - n,
{
    if n == lines.len() {
        assert(lines.take(n) =~= lines);
        assert(records_of(lines) + Seq::<T>::empty() =~= records_of(lines));
        assert(line_faults(lines) + Seq::<ReadFaultView>::empty() =~= line_faults(lines));
    } else {
        lemma_tails(lines, n + 1);
        let longer = lines.take(n + 1);
        assert(longer.drop_last() =~= lines.take(n));
        assert(longer.last() == lines[n]);
        match lines[n] {
            Ok(t) => {
                assert(records_of(longer) + records_tail(lines, n + 1) =~= records_of(
                    lines.take(n),
                ) + (seq![t] + records_tail(lines, n + 1)));
            },
            Err(e) => {
                assert(line_faults(longer) + faults_tail(lines, n + 1) =~= line_faults(
                    lines.take(n),
                ) + (seq![ReadFaultView { location: line_label((n + 1) as nat), error: e@ }]
                    + faults_tail(lines, n + 1)));
            },
        }
    }
}

/// `s` without the white space at its start.
pub open spec fn trimmed_start(s: Seq<char>) -> Seq<char>
    decreases s.len(),
{
    if s.len() > 0 && is_space(s[0]) {
        trimmed_start(s.drop_first())
    } else {
        s
    }
}

/// `s` without the white space at its end.
pub open spec fn trimmed_end(s: Seq<char>) -> Seq<char>
    decreases s.len(),
{
    if s.len() > 0 && is_space(s.last()) {
        trimmed_end(s.drop_last())
    } else {
        s
    }
}

/// `s` without the white space at its start and at its end.
pub open spec fn trimmed(s: Seq<char>) -> Seq<char> {
    trimmed_end(trimmed_start(s))
}

/// The lines of a log: each record trimmed, the empty ones left out.
pub open spec fn log_lines(records: Seq<Seq<char>>) -> Seq<Seq<char>>
    decreases records.len(),
{
    if records.len() == 0 {
        Seq::empty()
    } else if trimmed(records.last()).len() == 0 {
        log_lines(records.drop_last())
    } else {
        log_lines(records.drop_last()).push(trimmed(records.last()))
    }
}

/// Where the white space at the start of `s` ends.
proof fn lemma_trimmed_start_at(s: Seq<char>, k: int)
    requires
        0 <= k <= s.len(),
        forall|i: int| 0 <= i < k ==> is_space(#[trigger] s[i]),
        k == s.len() || !is_space(s[k]),
    ensures
        trimmed_start(s) == s.skip(k),
    decreases k,
{
    if k == 0 {
        assert(s.skip(0) =~= s);
    } else {
        let t = s.drop_first();
        assert forall|i: int| 0 <= i < k - 1 implies is_space(#[trigger] t[i]) by {
            assert(t[i] == s[i + 1]);
        }
        lemma_trimmed_start_at(t, k - 1);
        assert(t.skip(k - 1) =~= s.skip(k));
    }
}

/// Where the white space at the end of `s` begins.
proof fn lemma_trimmed_end_at(s: Seq<char>, k: int)
    requires
        0 <= k <= s.len(),
        forall|i: int| k <= i < s.len() ==> is_space(#[trigger] s[i]),
        k == 0 || !is_space(s[k - 1]),
    ensures
        trimmed_end(s) == s.take(k),
    decreases s.len() - k,
{
    if k == s.len() {
        assert(s.take(k) =~= s);
    } else {
        let t = s.drop_last();
        assert forall|i: int| k <= i < t.len() implies is_space(#[trigger] t[i]) by {
            assert(t[i] == s[i]);
        }
        lemma_trimmed_end_at(t, k);
        assert(t.take(k) =~= s.take(k));
    }
}

/// `s` without the white space around it.
pub fn trim_text(s: &str) -> (r: String)
    ensures
        r@ == trimmed(s@),
{
    let v = chars_of(s);
    let mut start: usize = 0;
    while start < v.len() && char_is_space(v[start])
        invariant
            start <= v.len(),
            forall|i: int| 0 <= i < start ==> is_space(#[trigger] v@[i]),
        decreases v.len() - start,
    {
        start = start + 1;
    }
    let mut end: usize = v.len();
    while end > start && char_is_space(v[end - 1])
        invariant
            start <= end <= v.len(),
            forall|i: int| end <= i < v.len() ==> is_space(#[trigger] v@[i]),
        decreases end,
    {
        end = end - 1;
    }
    proof {
        lemma_trimmed_start_at(v@, start as int);
        let mid = v@.skip(start as int);
        assert forall|i: int| end - start <= i < mid.len() implies is_space(#[trigger] mid[i]) by {
            assert(mid[i] == v@[i + start]);
        }
        if end > start {
            assert(mid[end - start - 1] == v@[end - 1]);
        }
        lemma_trimmed_end_at(mid, end - start);
        assert(mid.take(end - start) =~= v@.subrange(start as int, end as int));
    }
    let mut out: Vec<char> = Vec::new();
    let mut i: usize = start;
    while i < end
        invariant
            start <= i <= end <= v.len(),
            out@ =~= v@.subrange(start as int, i as int),
        decreases end - i,
    {
        out.push(v[i]);
        i = i + 1;
    }
    text_of(&out)
}

/// What is written to the log for the records as they were serialized: one
/// line for each, trimmed, the empty ones left out, with a line feed between
/// neighbours.
pub fn receipt_log(records: &Vec<String>) -> (r: String)
    ensures
        r@ == joined(log_lines(records.deep_view()), "\n"@),
{
    let mut lines: Vec<String> = Vec::new();
    let ghost all = records.deep_view();
    let mut i: usize = 0;
    proof {
        assert(lines.deep_view() =~= log_lines(all.take(0)));
    }
    while i < records.len()
        invariant
            i <= records.len(),
            all == records.deep_view(),
            lines.deep_view() == log_lines(all.take(i as int)),
        decreases records.len() - i,
    {
        proof {
            assert(all.take(i + 1).drop_last() =~= all.take(i as int));
            assert(all.take(i + 1).last() == records@[i as int]@);
        }
        let line = trim_text(records[i].as_str());
        if chars_of(line.as_str()).len() > 0 {
            push_text(&mut lines, line);
        }
        i = i + 1;
    }
    proof {
        assert(all.take(records.len() as int) =~= all);
    }
    join_texts(&lines, "\n")
}

/// The error for a log that is no file.
pub fn not_a_file(path: &str) -> (r: Error)
    ensures
        r is IOError,
        r.message() == path@ + " is not a file"@,
{
    let mut text = chars_of(path);
    append_str(&mut text, " is not a file");
    Error::IOError(text_of(&text))
}

/// Law: reading a log that parses line by line gives its records in order
/// and no failure, and nothing else is tried.
pub proof fn lemma_clean_log_reads_as_it_is<T>(lines: Seq<Result<T, String>>)
    requires
        forall|i: int| 0 <= i < lines.len() ==> (#[trigger] lines[i]) is Ok,
    ensures
        records_of(lines) == Seq::new(lines.len(), |i: int| lines[i]->Ok_0),
        line_faults(lines).len() == 0,
        !all_lines_failed(lines),
    decreases lines.len(),
{
    if lines.len() > 0 {
        let head = lines.drop_last();
        assert forall|i: int| 0 <= i < head.len() implies (#[trigger] head[i]) is Ok by {
            assert(head[i] == lines[i]);
        }
        lemma_clean_log_reads_as_it_is(head);
        assert(records_of(lines) =~= Seq::new(lines.len(), |i: int| lines[i]->Ok_0));
    } else {
        assert(records_of(lines) =~= Seq::new(lines.len(), |i: int| lines[i]->Ok_0));
    }
}

/// Law: a log that was written is read back line by line. The text of the
/// log splits at its line feeds into the lines that were written, where no
/// line holds a line feed itself.
pub proof fn lemma_log_splits_into_its_lines(records: Seq<Seq<char>>)
    requires
        log_lines(records).len() > 0,
        forall|i: int|
            0 <= i < log_lines(records).len() ==> free_of(#[trigger] log_lines(records)[i], '\n'),
    ensures
        split_on(joined(log_lines(records), "\n"@), '\n') == log_lines(records),
{
    reveal_strlit("\n");
    assert("\n"@ =~= seq!['\n']);
    lemma_split_joined(log_lines(records), '\n');
}

} // verus!
