use vstd::prelude::*;
use vstd::utf8::{decode_utf8, valid_utf8};

verus! {

/// The byte on which a stream is split into records: `$`.
pub const DELIMITER: u8 = 36;

/// What `str::trim` makes of a text: the text without the whitespace at its
/// two ends.
pub uninterp spec fn trim_of(s: Seq<char>) -> Seq<char>;

/// Where a read that starts at `pos` stops: just after the first delimiter at
/// or after `pos`, or at the end of the stream if there is none.
pub open spec fn span_end(data: Seq<u8>, pos: int) -> int
    decreases data.len() - pos,
{
    if pos >= data.len() {
        data.len() as int
    } else if data[pos] == DELIMITER {
        pos + 1
    } else {
        span_end(data, pos + 1)
    }
}

/// The next record span `(start, end)` of `data` from `pos` on. A read that
/// consumes a single byte (a lone delimiter, or the last byte of the stream)
/// is skipped; `None` once the stream is exhausted.
pub open spec fn next_span(data: Seq<u8>, pos: int) -> Option<(int, int)>
    decreases data.len() - pos,
{
    if pos < 0 || pos >= data.len() {
        None
    } else if data[pos] == DELIMITER || pos + 1 == data.len() {
        next_span(data, pos + 1)
    } else {
        Some((pos, span_end(data, pos)))
    }
}

/// A read from `pos` inside the stream consumes at least one byte and stops
/// at its end at the latest.
proof fn lemma_span_end_bounds(data: Seq<u8>, pos: int)
    requires
        0 <= pos < data.len(),
    ensures
        pos < span_end(data, pos) <= data.len(),
    decreases data.len() - pos,
{
    if data[pos] != DELIMITER {
        if pos + 1 < data.len() {
            lemma_span_end_bounds(data, pos + 1);
        } else {
            assert(span_end(data, pos + 1) == data.len());
        }
    }
}

/// A record span lies inside the stream and is at least two bytes long.
proof fn lemma_next_span_bounds(data: Seq<u8>, pos: int)
    ensures
        next_span(data, pos) matches Some((s, e)) ==> pos <= s && s + 2 <= e && e <= data.len()
            && e == span_end(data, s) && data[s] != DELIMITER,
    decreases data.len() - pos,
{
    if 0 <= pos < data.len() {
        if data[pos] == DELIMITER || pos + 1 == data.len() {
            lemma_next_span_bounds(data, pos + 1);
        } else {
            lemma_span_end_bounds(data, pos + 1);
        }
    }
}

/// The outcome of one record, given the block's text and what the engine
/// made of it: the molecule together with the text where the engine accepted
/// the block, the text alone where it rejected it.
pub fn record_result<M>(block: String, parsed: Option<M>) -> (r: Result<(M, String), String>)
    ensures
        match parsed {
            Some(m) => r == Ok::<(M, String), String>((m, block)),
            None => r == Err::<(M, String), String>(block),
        },
{
    match parsed {
        Some(m) => Ok((m, block)),
        None => Err(block),
    }
}

/// No record is empty or a lone delimiter: every record span is at least two
/// bytes long and starts with a byte other than the delimiter, and a stream
/// made of delimiters alone holds no record at all.
pub proof fn lemma_no_empty_or_delimiter_only_record(data: Seq<u8>, pos: int)
    ensures
        next_span(data, pos) matches Some((s, e)) ==> 0 <= pos <= s && s + 2 <= e && e
            <= data.len() && data[s] != DELIMITER,
        (forall|k: int| 0 <= k < data.len() ==> data[k] == DELIMITER) ==> next_span(
            data,
            pos,
        ) is None,
    decreases data.len() - pos,
{
    lemma_next_span_bounds(data, pos);
    if 0 <= pos < data.len() {
        lemma_no_empty_or_delimiter_only_record(data, pos + 1);
    }
}

/// A record whose bytes are not valid UTF-8; it spans `start..end` of the
/// stream. Such a stream breaks the input's encoding precondition.
#[derive(Debug, Clone, Copy, PartialEq, Eq)]
pub struct NotText {
    pub start: usize,
    pub end: usize,
}

/// Splits an in-memory chemical file into record blocks, and carries the
/// parse options that every block of the file is handed to the engine with.
pub struct VerboseMolBlockIter {
    data: Vec<u8>,
    pos: usize,
    sanitize: bool,
    remove_hs: bool,
    strict_parsing: bool,
}

/// Relies on `std::str::from_utf8`: it accepts exactly the valid UTF-8 byte
/// sequences, and the text is the one those bytes encode.
#[verifier::external_body]
fn decode_text(b: &[u8]) -> (r: Option<String>)
    ensures
        r is Some <==> valid_utf8(b@),
        r matches Some(s) ==> s@ == decode_utf8(b@),
{
    match std::str::from_utf8(b) {
        Ok(s) => Some(s.to_string()),
        Err(_) => None,
    }
}

/// Relies on `str::trim`: the result depends on the characters alone.
#[verifier::external_body]
fn trim_text(s: &str) -> (r: String)
    ensures
        r@ == trim_of(s@),
{
    s.trim().to_string()
}

impl VerboseMolBlockIter {
    /// The bytes of the stream.
    pub closed spec fn stream(&self) -> Seq<u8> {
        self.data@
    }

    /// How far the stream has been consumed.
    pub closed spec fn consumed(&self) -> int {
        self.pos as int
    }

    pub closed spec fn spec_sanitize(&self) -> bool {
        self.sanitize
    }

    pub closed spec fn spec_remove_hs(&self) -> bool {
        self.remove_hs
    }

    pub closed spec fn spec_strict_parsing(&self) -> bool {
        self.strict_parsing
    }

    /// The position never passes the end of the stream.
    pub closed spec fn wf(&self) -> bool {
        self.pos <= self.data.len()
    }

    /// A splitter at the start of `data`, with the parse options fixed for
    /// the whole stream.
    pub fn new(data: Vec<u8>, sanitize: bool, remove_hs: bool, strict_parsing: bool) -> (r: Self)
        ensures
            r.wf(),
            r.stream() == data@,
            r.consumed() == 0,
            r.spec_sanitize() == sanitize,
            r.spec_remove_hs() == remove_hs,
            r.spec_strict_parsing() == strict_parsing,
    {
        VerboseMolBlockIter { data, pos: 0, sanitize, remove_hs, strict_parsing }
    }
    /// Reads the next record block: the span that `next_span` gives from the
    /// current position, decoded as UTF-8 and trimmed of surrounding
    /// whitespace. `None` once the stream is exhausted; `NotText` where the
    /// span is not valid UTF-8.
    pub fn next_block(&mut self) -> (r: Option<Result<String, NotText>>)
        requires
            old(self).wf(),
        ensures
            final(self).wf(),
            final(self).stream() == old(self).stream(),
            final(self).spec_sanitize() == old(self).spec_sanitize(),
            final(self).spec_remove_hs() == old(self).spec_remove_hs(),
            final(self).spec_strict_parsing() == old(self).spec_strict_parsing(),
            match next_span(old(self).stream(), old(self).consumed()) {
                None => r is None && final(self).consumed() == old(self).stream().len(),
                Some((s, e)) => final(self).consumed() == e && match r {
                    Some(Ok(t)) => valid_utf8(old(self).stream().subrange(s, e)) && t@ == trim_of(
                        decode_utf8(old(self).stream().subrange(s, e)),
                    ),
                    Some(Err(err)) => !valid_utf8(old(self).stream().subrange(s, e)) && err.start
                        == s && err.end == e,
                    None => false,
                },
            },
    {
        let len = self.data.len();
        let ghost target = next_span(self.data@, self.pos as int);
        while self.pos < len && (self.data[self.pos] == DELIMITER || self.pos + 1 == len)
            invariant
                self.wf(),
                len == self.data.len(),
                self.data@ == old(self).data@,
                self.sanitize == old(self).sanitize,
                self.remove_hs == old(self).remove_hs,
                self.strict_parsing == old(self).strict_parsing,
                next_span(self.data@, self.pos as int) == target,
            decreases len - self.pos,
        {
            self.pos = self.pos + 1;
        }
        if self.pos >= len {
            return None;
        }
        let start = self.pos;
        proof {
            lemma_next_span_bounds(self.data@, start as int);
        }
        let mut end = start;
        while end < len && self.data[end] != DELIMITER
            invariant
                self.wf(),
                len == self.data.len(),
                start <= end <= len,
                span_end(self.data@, start as int) == span_end(self.data@, end as int),
            decreases len - end,
        {
            end = end + 1;
        }
        if end < len {
            end = end + 1;
        }
        assert(end == span_end(self.data@, start as int));
        self.pos = end;
        let mut span: Vec<u8> = Vec::new();
        let mut k = start;
        while k < end
            invariant
                start <= k <= end <= len,
                len == self.data.len(),
                span@ == self.data@.subrange(start as int, k as int),
            decreases end - k,
        {
            span.push(self.data[k]);
            k = k + 1;
        }
        match decode_text(span.as_slice()) {
            Some(text) => Some(Ok(trim_text(text.as_str()))),
            None => Some(Err(NotText { start, end })),
        }
    }

    /// Whether the engine sanitizes each parsed structure.
    pub fn sanitize(&self) -> (r: bool)
        ensures
            r == self.spec_sanitize(),
    {
        self.sanitize
    }

    /// Whether the engine strips explicit hydrogens after each parse.
    pub fn remove_hs(&self) -> (r: bool)
        ensures
            r == self.spec_remove_hs(),
    {
        self.remove_hs
    }

    /// Whether recoverable format warnings fail a record.
    pub fn strict_parsing(&self) -> (r: bool)
        ensures
            r == self.spec_strict_parsing(),
    {
        self.strict_parsing
    }
}

} // verus!
