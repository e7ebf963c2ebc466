//! Placeholder search and question-answering engine.
//!
//! These are stubs kept deliberately simple — a future extension point,
//! not a real engine: search is a case-insensitive substring scan that
//! reports one match per matching line, summarization keeps the first few
//! lines, and question answering returns a fixed templated string.

use vstd::prelude::*;

use crate::errors::CommandError;
use crate::text::{contains_seq, contains_str, lower_of, lowercase, spec_lines, split_lines};

verus! {

/// One search match, as the command surface returns it.
pub struct SearchResult {
    /// Index of the searched text the match was found in.
    pub book_index: usize,
    /// Zero-based line number of the matching line within that text.
    pub line_number: usize,
    /// The matching line, verbatim.
    pub context: String,
}

/// Mathematical model of one search match.
pub struct SearchHit {
    pub book_index: int,
    pub line_number: int,
    pub context: Seq<char>,
}

impl View for SearchResult {
    type V = SearchHit;

    open spec fn view(&self) -> SearchHit {
        SearchHit {
            book_index: self.book_index as int,
            line_number: self.line_number as int,
            context: self.context@,
        }
    }
}

/// The matches within one text's lines, from line `from` on: one hit per
/// line whose lowercased text contains the lowercased query.
pub open spec fn line_hits(lines: Seq<Seq<char>>, lq: Seq<char>, idx: int, from: int) -> Seq<
    SearchHit,
>
    decreases lines.len() - from,
{
    if from < 0 || from >= lines.len() {
        Seq::empty()
    } else {
        let rest = line_hits(lines, lq, idx, from + 1);
        if contains_seq(lower_of(lines[from]), lq) {
            seq![SearchHit { book_index: idx, line_number: from, context: lines[from] }] + rest
        } else {
            rest
        }
    }
}

/// All matches over the given texts, from text `from` on. A text's lines
/// are scanned only when the lowercased text as a whole contains the
/// lowercased query.
pub open spec fn search_hits(contents: Seq<Seq<char>>, lq: Seq<char>, from: int) -> Seq<SearchHit>
    decreases contents.len() - from,
{
    if from < 0 || from >= contents.len() {
        Seq::empty()
    } else {
        let here = if contains_seq(lower_of(contents[from]), lq) {
            line_hits(spec_lines(contents[from]), lq, from, 0)
        } else {
            Seq::empty()
        };
        here + search_hits(contents, lq, from + 1)
    }
}

/// The first lines of a text: all of them when there are at most `n`.
pub open spec fn first_lines(ls: Seq<Seq<char>>, n: int) -> Seq<Seq<char>> {
    if ls.len() <= n {
        ls
    } else {
        ls.take(n)
    }
}

/// Lines joined back together with a newline between each pair.
pub open spec fn join_lines(ls: Seq<Seq<char>>) -> Seq<char>
    decreases ls.len(),
{
    if ls.len() == 0 {
        Seq::empty()
    } else if ls.len() == 1 {
        ls[0]
    } else {
        ls[0] + seq!['\n'] + join_lines(ls.drop_first())
    }
}

/// Join the lines with index in `from..upto` with newlines.
fn join_range(lines: &Vec<String>, from: usize, upto: usize) -> (r: String)
    requires
        from <= upto <= lines@.len(),
    ensures
        r@ == join_lines(lines@.map_values(|l: String| l@).subrange(from as int, upto as int)),
    decreases upto - from,
{
    let ghost ls = lines@.map_values(|l: String| l@);
    if from >= upto {
        proof {
            assert(ls.subrange(from as int, upto as int).len() == 0);
        }
        String::new()
    } else if from + 1 == upto {
        let r = lines[from].clone();
        proof {
            assert(ls.subrange(from as int, upto as int) =~= seq![ls[from as int]]);
        }
        r
    } else {
        let head = lines[from].clone();
        let h2 = head.concat("\n");
        let rest = join_range(lines, from + 1, upto);
        let out = h2.concat(rest.as_str());
        proof {
            reveal_strlit("\n");
            assert("\n"@ =~= seq!['\n']);
            let sub = ls.subrange(from as int, upto as int);
            assert(sub.drop_first() =~= ls.subrange(from + 1, upto as int));
            assert(sub[0] == ls[from as int]);
            assert(out@ == ls[from as int] + seq!['\n'] + join_lines(
                ls.subrange(from + 1, upto as int),
            ));
        }
        out
    }
}

/// The placeholder engine. It holds no model; only a flag saying whether
/// it was initialized.
pub struct AIEngine {
    initialized: bool,
}

impl AIEngine {
    /// Whether the engine has been initialized.
    pub closed spec fn spec_initialized(&self) -> bool {
        self.initialized
    }

    /// A fresh, uninitialized engine.
    pub fn new() -> (e: AIEngine)
        ensures
            !e.spec_initialized(),
    {
        AIEngine { initialized: false }
    }

    /// Mark the engine initialized. Loading a real model would happen
    /// here; the stub only flips the flag and cannot fail.
    pub fn initialize(&mut self) -> (r: Result<(), CommandError>)
        ensures
            r is Ok,
            final(self).spec_initialized(),
    {
        self.initialized = true;
        Ok(())
    }

    /// Case-insensitive substring search over the given texts: one match
    /// per line whose lowercased text contains the lowercased query,
    /// reported with its text index and zero-based line number.
    pub fn search_in_books(&self, query: &str, books_content: Vec<String>) -> (r: Result<
        Vec<SearchResult>,
        CommandError,
    >)
        ensures
            r is Ok,
            r matches Ok(v) ==> v@.map_values(|x: SearchResult| x@) == search_hits(
                books_content@.map_values(|c: String| c@),
                lower_of(query@),
                0,
            ),
    {
        let ghost contents = books_content@.map_values(|c: String| c@);
        let ghost q = lower_of(query@);
        let lq = lowercase(query);
        let mut results: Vec<SearchResult> = Vec::new();
        let nb = books_content.len();
        let mut idx: usize = 0;
        proof {
            assert(results@.map_values(|x: SearchResult| x@) =~= Seq::<SearchHit>::empty());
        }
        while idx < nb
            invariant
                nb == books_content@.len(),
                idx <= nb,
                contents == books_content@.map_values(|c: String| c@),
                lq@ == lower_of(query@),
                q == lower_of(query@),
                search_hits(contents, q, 0) == results@.map_values(|x: SearchResult| x@)
                    + search_hits(contents, q, idx as int),
            decreases nb - idx,
        {
            let lc = lowercase(books_content[idx].as_str());
            if contains_str(lc.as_str(), lq.as_str()) {
                let lines = split_lines(books_content[idx].as_str());
                let nl = lines.len();
                let mut ln: usize = 0;
                proof {
                    assert(search_hits(contents, q, idx as int) == line_hits(
                        spec_lines(contents[idx as int]),
                        q,
                        idx as int,
                        0,
                    ) + search_hits(contents, q, idx + 1));
                    assert(results@.map_values(|x: SearchResult| x@) + (line_hits(
                        spec_lines(contents[idx as int]),
                        q,
                        idx as int,
                        0,
                    ) + search_hits(contents, q, idx + 1)) =~= results@.map_values(
                        |x: SearchResult| x@,
                    ) + line_hits(spec_lines(contents[idx as int]), q, idx as int, 0)
                        + search_hits(contents, q, idx + 1));
                }
                while ln < nl
                    invariant
                        nb == books_content@.len(),
                        idx < nb,
                        contents == books_content@.map_values(|c: String| c@),
                        lq@ == lower_of(query@),
                        q == lower_of(query@),
                        nl == lines@.len(),
                        ln <= nl,
                        lines@.map_values(|l: String| l@) == spec_lines(contents[idx as int]),
                        search_hits(contents, q, 0) == results@.map_values(|x: SearchResult| x@)
                            + line_hits(spec_lines(contents[idx as int]), q, idx as int, ln as int)
                            + search_hits(contents, q, idx + 1),
                    decreases nl - ln,
                {
                    let ghost pre = results@;
                    let ghost lhere = line_hits(
                        spec_lines(contents[idx as int]),
                        q,
                        idx as int,
                        ln as int,
                    );
                    let ghost lnext = line_hits(
                        spec_lines(contents[idx as int]),
                        q,
                        idx as int,
                        ln + 1,
                    );
                    proof {
                        assert(spec_lines(contents[idx as int])[ln as int] == lines@[ln as int]@);
                    }
                    let ll = lowercase(lines[ln].as_str());
                    if contains_str(ll.as_str(), lq.as_str()) {
                        let sr = SearchResult {
                            book_index: idx,
                            line_number: ln,
                            context: lines[ln].clone(),
                        };
                        results.push(sr);
                        proof {
                            assert(lhere == seq![sr@] + lnext);
                            assert(results@.map_values(|x: SearchResult| x@) =~= pre.map_values(
                                |x: SearchResult| x@,
                            ) + seq![sr@]);
                            assert(pre.map_values(|x: SearchResult| x@) + (seq![sr@] + lnext)
                                + search_hits(contents, q, idx + 1) =~= (pre.map_values(
                                |x: SearchResult| x@,
                            ) + seq![sr@]) + lnext + search_hits(contents, q, idx + 1));
                        }
                    } else {
                        proof {
                            assert(lhere == lnext);
                        }
                    }
                    ln += 1;
                }
                proof {
                    assert(line_hits(spec_lines(contents[idx as int]), q, idx as int, nl as int)
                        == Seq::<SearchHit>::empty());
                    assert(results@.map_values(|x: SearchResult| x@) + Seq::<SearchHit>::empty()
                        + search_hits(contents, q, idx + 1) =~= results@.map_values(
                        |x: SearchResult| x@,
                    ) + search_hits(contents, q, idx + 1));
                }
            } else {
                proof {
                    assert(search_hits(contents, q, idx as int) == Seq::<SearchHit>::empty()
                        + search_hits(contents, q, idx + 1));
                    assert(Seq::<SearchHit>::empty() + search_hits(contents, q, idx + 1)
                        =~= search_hits(contents, q, idx + 1));
                }
            }
            idx += 1;
        }
        proof {
            assert(search_hits(contents, q, nb as int) == Seq::<SearchHit>::empty());
            assert(results@.map_values(|x: SearchResult| x@) + Seq::<SearchHit>::empty()
                =~= results@.map_values(|x: SearchResult| x@));
        }
        Ok(results)
    }

    /// Keep only the first five lines of a text.
    pub fn summarize_text(&self, text: &str) -> (r: Result<String, CommandError>)
        ensures
            r is Ok,
            r matches Ok(s) ==> s@ == join_lines(first_lines(spec_lines(text@), 5)),
    {
        let lines = split_lines(text);
        let upto = if lines.len() < 5 {
            lines.len()
        } else {
            5
        };
        let out = join_range(&lines, 0, upto);
        proof {
            let ls = lines@.map_values(|l: String| l@);
            assert(ls.subrange(0, upto as int) =~= first_lines(spec_lines(text@), 5));
        }
        Ok(out)
    }

    /// Answer a question from context. The stub performs no retrieval or
    /// reasoning: it returns a fixed templated string embedding the
    /// question.
    pub fn answer_question(&self, question: &str, _context: &str) -> (r: Result<
        String,
        CommandError,
    >)
        ensures
            r is Ok,
            r matches Ok(s) ==> s@ == "質問「"@ + question@
                + "」に関する情報:\n\nコンテキストから関連情報を検索中...\n(AI機能は今後拡張予定)"@,
    {
        let mut out = String::from_str("質問「");
        out.append(question);
        out.append("」に関する情報:\n\nコンテキストから関連情報を検索中...\n(AI機能は今後拡張予定)");
        Ok(out)
    }
}

} // verus!
