//! The marker parser: one forward scan over the source lines.
//!
//! Everything before the first line containing the document-body-start
//! sentinel becomes the header, to which one page-numbering-suppression line
//! is appended. From the sentinel line on, each complete
//! question-start / answer-start / card-end marker triple yields one card;
//! a trailing block whose triple is not completed is dropped. A marker
//! matches anywhere inside a line, as a substring.

use vstd::prelude::*;
use vstd::string::*;

verus! {

/// One parsed card: the lines of its question and the lines of its answer,
/// marker lines excluded.
pub struct CardSpec {
    pub question: Vec<String>,
    pub answer: Vec<String>,
}

/// The mathematical value of one card.
pub ghost struct CardModel {
    pub question: Seq<Seq<char>>,
    pub answer: Seq<Seq<char>>,
}

/// The mathematical value of a parsed card.
pub open spec fn card_model(c: CardSpec) -> CardModel {
    CardModel { question: c.question.deep_view(), answer: c.answer.deep_view() }
}

/// The mathematical value of a sequence of parsed cards.
pub open spec fn cards_model(cs: Seq<CardSpec>) -> Seq<CardModel> {
    cs.map_values(|c: CardSpec| card_model(c))
}

/// The sentinel that ends the header and starts the document body.
pub open spec fn body_start_marker() -> Seq<char> {
    "\\begin{document}"@
}

/// The question-start marker.
pub open spec fn question_marker() -> Seq<char> {
    "%Q"@
}

/// The answer-start marker.
pub open spec fn answer_marker() -> Seq<char> {
    "%R"@
}

/// The card-end marker.
pub open spec fn card_end_marker() -> Seq<char> {
    "%F"@
}

/// The line appended to every header to suppress page numbers.
pub open spec fn suppression_line() -> Seq<char> {
    "\\pagenumbering{gobble}"@
}

/// `m` occurs in `l` as a contiguous substring.
pub open spec fn line_has(l: Seq<char>, m: Seq<char>) -> bool {
    exists|k: int| 0 <= k && k + m.len() <= l.len() && #[trigger] l.subrange(k, k + m.len() as int)
        == m
}

/// The first index at or after `from` whose line contains `m`, or
/// `lines.len()` if no line from there on does.
pub open spec fn next_match(lines: Seq<Seq<char>>, from: int, m: Seq<char>) -> int
    decreases lines.len() - from,
    when 0 <= from <= lines.len()
{
    if from >= lines.len() {
        lines.len() as int
    } else if line_has(lines[from], m) {
        from
    } else {
        next_match(lines, from + 1, m)
    }
}

/// `next_match` stays within bounds, and where it lands short of the end,
/// that line contains `m`.
pub proof fn lemma_next_match_bounds(lines: Seq<Seq<char>>, from: int, m: Seq<char>)
    requires
        0 <= from <= lines.len(),
    ensures
        from <= next_match(lines, from, m) <= lines.len(),
        next_match(lines, from, m) < lines.len() ==> line_has(
            lines[next_match(lines, from, m)],
            m,
        ),
    decreases lines.len() - from,
{
    if from < lines.len() && !line_has(lines[from], m) {
        lemma_next_match_bounds(lines, from + 1, m);
    }
}

/// An index with the three defining properties is `next_match`.
pub proof fn lemma_next_match_is(lines: Seq<Seq<char>>, from: int, m: Seq<char>, i: int)
    requires
        0 <= from <= i <= lines.len(),
        i == lines.len() || line_has(lines[i], m),
        forall|j: int| from <= j < i ==> !line_has(#[trigger] lines[j], m),
    ensures
        next_match(lines, from, m) == i,
    decreases i - from,
{
    if from < i {
        lemma_next_match_is(lines, from + 1, m, i);
    }
}

proof fn lemma_subrange_push(s: Seq<Seq<char>>, a: int, b: int)
    requires
        0 <= a <= b < s.len(),
    ensures
        s.subrange(a, b).push(s[b]) == s.subrange(a, b + 1),
{
    assert(s.subrange(a, b).push(s[b]) =~= s.subrange(a, b + 1));
}

/// The cards of a scan that starts at line `from`: each complete
/// question-start / answer-start / card-end triple yields one card whose
/// question is the lines strictly between the first two markers and whose
/// answer is the lines strictly between the last two; an incomplete
/// trailing triple yields nothing.
pub open spec fn scan_cards(lines: Seq<Seq<char>>, from: int) -> Seq<CardModel>
    decreases lines.len() - from,
    when 0 <= from <= lines.len()
{
    let q = next_match(lines, from, question_marker());
    if q == lines.len() {
        Seq::empty()
    } else {
        let r = next_match(lines, q + 1, answer_marker());
        if r == lines.len() {
            Seq::empty()
        } else {
            let f = next_match(lines, r + 1, card_end_marker());
            if f == lines.len() {
                Seq::empty()
            } else {
                proof {
                    lemma_next_match_bounds(lines, from, question_marker());
                    lemma_next_match_bounds(lines, q + 1, answer_marker());
                    lemma_next_match_bounds(lines, r + 1, card_end_marker());
                }
                seq![
                    CardModel {
                        question: lines.subrange(q + 1, r),
                        answer: lines.subrange(r + 1, f),
                    },
                ] + scan_cards(lines, f + 1)
            }
        }
    }
}

/// The clean point a scan from `from` stops at: the line after the card-end
/// marker of the last complete card, or `from` itself if no complete card
/// begins there. Lines from this point to the end of the input belong to no
/// card.
pub open spec fn scan_end(lines: Seq<Seq<char>>, from: int) -> int
    decreases lines.len() - from,
    when 0 <= from <= lines.len()
{
    let q = next_match(lines, from, question_marker());
    if q == lines.len() {
        from
    } else {
        let r = next_match(lines, q + 1, answer_marker());
        if r == lines.len() {
            from
        } else {
            let f = next_match(lines, r + 1, card_end_marker());
            if f == lines.len() {
                from
            } else {
                proof {
                    lemma_next_match_bounds(lines, from, question_marker());
                    lemma_next_match_bounds(lines, q + 1, answer_marker());
                    lemma_next_match_bounds(lines, r + 1, card_end_marker());
                }
                scan_end(lines, f + 1)
            }
        }
    }
}

/// Where the card scan starts: the first line containing the sentinel, or
/// the end of the input if there is none.
pub open spec fn body_start(lines: Seq<Seq<char>>) -> int {
    next_match(lines, 0, body_start_marker())
}

/// The header of a source: every line before the sentinel, with the
/// page-numbering-suppression line appended.
pub open spec fn header_model(lines: Seq<Seq<char>>) -> Seq<Seq<char>> {
    lines.take(body_start(lines)) + seq![suppression_line()]
}

/// The cards of a source.
pub open spec fn cards_of(lines: Seq<Seq<char>>) -> Seq<CardModel> {
    scan_cards(lines, body_start(lines))
}

/// How many trailing lines of a source belong to no complete card.
pub open spec fn trailing_of(lines: Seq<Seq<char>>) -> int {
    lines.len() - scan_end(lines, body_start(lines))
}

/// With no question marker anywhere in the input, a scan from any point
/// yields no cards.
pub proof fn lemma_no_question_marker_no_cards(lines: Seq<Seq<char>>, from: int)
    requires
        0 <= from <= lines.len(),
        forall|j: int| 0 <= j < lines.len() ==> !line_has(#[trigger] lines[j], question_marker()),
    ensures
        scan_cards(lines, from) == Seq::<CardModel>::empty(),
{
    lemma_next_match_is(lines, from, question_marker(), lines.len() as int);
}

/// An input with neither the question marker nor the sentinel parses to an
/// empty card list, and its header is the entire input followed by the
/// page-numbering-suppression line.
pub proof fn lemma_no_markers_whole_header(lines: Seq<Seq<char>>)
    requires
        forall|j: int| 0 <= j < lines.len() ==> !line_has(#[trigger] lines[j], question_marker()),
        forall|j: int| 0 <= j < lines.len() ==> !line_has(#[trigger] lines[j], body_start_marker()),
    ensures
        header_model(lines) == lines + seq![suppression_line()],
        cards_of(lines) == Seq::<CardModel>::empty(),
{
    lemma_next_match_is(lines, 0, body_start_marker(), lines.len() as int);
    assert(lines.take(lines.len() as int) =~= lines);
    lemma_no_question_marker_no_cards(lines, lines.len() as int);
}

/// How many complete question-start / answer-start / card-end triples a
/// scan from `from` meets; a trailing incomplete triple counts for nothing.
pub open spec fn complete_triples(lines: Seq<Seq<char>>, from: int) -> nat
    decreases lines.len() - from,
    when 0 <= from <= lines.len()
{
    let q = next_match(lines, from, question_marker());
    if q == lines.len() {
        0
    } else {
        let r = next_match(lines, q + 1, answer_marker());
        if r == lines.len() {
            0
        } else {
            let f = next_match(lines, r + 1, card_end_marker());
            if f == lines.len() {
                0
            } else {
                proof {
                    lemma_next_match_bounds(lines, from, question_marker());
                    lemma_next_match_bounds(lines, q + 1, answer_marker());
                    lemma_next_match_bounds(lines, r + 1, card_end_marker());
                }
                1 + complete_triples(lines, f + 1)
            }
        }
    }
}

/// The parser emits exactly one card per complete marker triple: the number
/// of cards a scan yields is the number of complete triples it meets, so
/// trailing incomplete triples are dropped.
pub proof fn lemma_card_count_is_triple_count(lines: Seq<Seq<char>>, from: int)
    requires
        0 <= from <= lines.len(),
    ensures
        scan_cards(lines, from).len() == complete_triples(lines, from),
    decreases lines.len() - from,
{
    let q = next_match(lines, from, question_marker());
    lemma_next_match_bounds(lines, from, question_marker());
    if q != lines.len() {
        let r = next_match(lines, q + 1, answer_marker());
        lemma_next_match_bounds(lines, q + 1, answer_marker());
        if r != lines.len() {
            let f = next_match(lines, r + 1, card_end_marker());
            lemma_next_match_bounds(lines, r + 1, card_end_marker());
            if f != lines.len() {
                lemma_card_count_is_triple_count(lines, f + 1);
            }
        }
    }
}

/// A parsed source yields exactly one card per complete marker triple of
/// its body.
pub proof fn lemma_parsed_card_count(lines: Seq<Seq<char>>)
    ensures
        cards_of(lines).len() == complete_triples(lines, body_start(lines)),
{
    lemma_next_match_bounds(lines, 0, body_start_marker());
    lemma_card_count_is_triple_count(lines, body_start(lines));
}

/// Parsing is a pure function of the input lines: two runs over equal
/// inputs yield equal headers, equal card sequences and equal trailing
/// counts.
pub proof fn lemma_parse_deterministic(a: Seq<Seq<char>>, b: Seq<Seq<char>>)
    requires
        a == b,
    ensures
        header_model(a) == header_model(b),
        cards_of(a) == cards_of(b),
        trailing_of(a) == trailing_of(b),
{
}

fn match_at(line: &str, marker: &str, k: usize) -> (r: bool)
    requires
        k + marker@.len() <= line@.len(),
        line@.len() <= usize::MAX,
    ensures
        r == (line@.subrange(k as int, k + marker@.len()) == marker@),
{
    let m = marker.unicode_len();
    let mut j: usize = 0;
    while j < m
        invariant
            0 <= j <= m,
            m == marker@.len(),
            k + m <= line@.len(),
            line@.len() <= usize::MAX,
            forall|jj: int| 0 <= jj < j ==> line@[k + jj] == marker@[jj],
        decreases m - j,
    {
        if line.get_char(k + j) != marker.get_char(j) {
            proof {
                assert(line@.subrange(k as int, k + marker@.len())[j as int] == line@[k + j]);
            }
            return false;
        }
        j += 1;
    }
    proof {
        assert(line@.subrange(k as int, k + marker@.len()) =~= marker@);
    }
    true
}

/// Whether `marker` occurs anywhere in `line`; the empty marker occurs in
/// every line.
pub fn contains_marker(line: &str, marker: &str) -> (r: bool)
    ensures
        r == line_has(line@, marker@),
{
    let n = line.unicode_len();
    let m = marker.unicode_len();
    if m == 0 {
        proof {
            assert(line@.subrange(0, 0 + marker@.len() as int) =~= marker@);
        }
        return true;
    }
    if m > n {
        proof {
            assert(!line_has(line@, marker@));
        }
        return false;
    }
    let mut k: usize = 0;
    while k <= n - m
        invariant
            1 <= m <= n,
            n == line@.len(),
            m == marker@.len(),
            0 <= k <= n - m + 1,
            forall|kk: int| 0 <= kk < k ==> #[trigger] line@.subrange(kk, kk + m as int)
                != marker@,
        decreases n - k,
    {
        if match_at(line, marker, k) {
            return true;
        }
        k += 1;
    }
    proof {
        assert forall|kk: int|
            0 <= kk && kk + marker@.len() <= line@.len() implies #[trigger] line@.subrange(
            kk,
            kk + marker@.len() as int,
        ) != marker@ by {
            assert(kk < k);
        }
    }
    false
}

pub(crate) fn push_string(v: &mut Vec<String>, s: String)
    ensures
        final(v).deep_view() == old(v).deep_view().push(s@),
{
    let ghost prev = v.deep_view();
    let ghost sv = s@;
    v.push(s);
    proof {
        assert(v.deep_view() =~= prev.push(sv)) by {
            assert forall|j: int| 0 <= j < v.deep_view().len() implies v.deep_view()[j] == prev.push(
                sv,
            )[j] by {
                if j < prev.len() {
                    assert(v@[j] == old(v)@[j]);
                } else {
                    assert(v@[j] == s);
                }
            }
        }
    }
}

/// Scans for the next complete card at or after line `from`; returns the
/// card and the clean point just past its card-end marker, or `None` if no
/// complete marker triple remains.
pub fn scan_next_card(lines: &Vec<String>, from: usize) -> (res: Option<(CardSpec, usize)>)
    requires
        from <= lines@.len(),
    ensures
        match res {
            Some(p) => {
                &&& from < p.1 <= lines@.len()
                &&& scan_cards(lines.deep_view(), from as int) == seq![card_model(p.0)]
                    + scan_cards(lines.deep_view(), p.1 as int)
                &&& scan_end(lines.deep_view(), from as int) == scan_end(
                    lines.deep_view(),
                    p.1 as int,
                )
            },
            None => {
                &&& scan_cards(lines.deep_view(), from as int) == Seq::<CardModel>::empty()
                &&& scan_end(lines.deep_view(), from as int) == from as int
            },
        },
{
    let ghost ls = lines.deep_view();
    let n = lines.len();
    let mut i = from;
    while i < n && !contains_marker(lines[i].as_str(), "%Q")
        invariant
            from <= i <= n,
            n == ls.len(),
            ls == lines.deep_view(),
            forall|j: int| from <= j < i ==> !line_has(#[trigger] ls[j], question_marker()),
        decreases n - i,
    {
        i += 1;
    }
    if i == n {
        proof {
            lemma_next_match_is(ls, from as int, question_marker(), n as int);
        }
        return None;
    }
    let ghost q = i as int;
    proof {
        lemma_next_match_is(ls, from as int, question_marker(), q);
    }
    i += 1;
    let mut question: Vec<String> = Vec::new();
    proof {
        assert(question.deep_view() =~= ls.subrange(q + 1, i as int));
    }
    while i < n && !contains_marker(lines[i].as_str(), "%R")
        invariant
            0 <= q,
            q + 1 <= i <= n,
            n == ls.len(),
            ls == lines.deep_view(),
            question.deep_view() == ls.subrange(q + 1, i as int),
            forall|j: int| q + 1 <= j < i ==> !line_has(#[trigger] ls[j], answer_marker()),
        decreases n - i,
    {
        push_string(&mut question, lines[i].clone());
        proof {
            lemma_subrange_push(ls, q + 1, i as int);
        }
        i += 1;
    }
    if i == n {
        proof {
            lemma_next_match_is(ls, q + 1, answer_marker(), n as int);
        }
        return None;
    }
    let ghost r = i as int;
    proof {
        lemma_next_match_is(ls, q + 1, answer_marker(), r);
    }
    i += 1;
    let mut answer: Vec<String> = Vec::new();
    proof {
        assert(answer.deep_view() =~= ls.subrange(r + 1, i as int));
    }
    while i < n && !contains_marker(lines[i].as_str(), "%F")
        invariant
            0 <= r,
            r + 1 <= i <= n,
            n == ls.len(),
            ls == lines.deep_view(),
            answer.deep_view() == ls.subrange(r + 1, i as int),
            forall|j: int| r + 1 <= j < i ==> !line_has(#[trigger] ls[j], card_end_marker()),
        decreases n - i,
    {
        push_string(&mut answer, lines[i].clone());
        proof {
            lemma_subrange_push(ls, r + 1, i as int);
        }
        i += 1;
    }
    if i == n {
        proof {
            lemma_next_match_is(ls, r + 1, card_end_marker(), n as int);
        }
        return None;
    }
    let ghost f = i as int;
    proof {
        lemma_next_match_is(ls, r + 1, card_end_marker(), f);
    }
    i += 1;
    let card = CardSpec { question, answer };
    proof {
        assert(card_model(card) == CardModel {
            question: ls.subrange(q + 1, r),
            answer: ls.subrange(r + 1, f),
        });
        assert(scan_cards(ls, from as int) == seq![card_model(card)] + scan_cards(ls, f + 1));
        assert(scan_end(ls, from as int) == scan_end(ls, f + 1));
    }
    Some((card, i))
}

/// The result of parsing one source: the header (every line before the
/// sentinel, plus the page-numbering-suppression line), the complete cards
/// in source order, and how many trailing lines belong to no complete card.
pub struct ParsedDocument {
    pub header: Vec<String>,
    pub cards: Vec<CardSpec>,
    pub trailing_lines: usize,
}

/// Parses one source into its header and its cards.
pub fn parse_document(lines: &Vec<String>) -> (res: ParsedDocument)
    ensures
        res.header.deep_view() == header_model(lines.deep_view()),
        cards_model(res.cards@) == cards_of(lines.deep_view()),
        res.trailing_lines as int == trailing_of(lines.deep_view()),
{
    let ghost ls = lines.deep_view();
    let n = lines.len();
    let mut i: usize = 0;
    let mut header: Vec<String> = Vec::new();
    proof {
        assert(header.deep_view() =~= ls.take(0));
    }
    while i < n && !contains_marker(lines[i].as_str(), "\\begin{document}")
        invariant
            0 <= i <= n,
            n == ls.len(),
            ls == lines.deep_view(),
            header.deep_view() == ls.take(i as int),
            forall|j: int| 0 <= j < i ==> !line_has(#[trigger] ls[j], body_start_marker()),
        decreases n - i,
    {
        push_string(&mut header, lines[i].clone());
        proof {
            assert(header.deep_view() =~= ls.take(i + 1));
        }
        i += 1;
    }
    proof {
        lemma_next_match_is(ls, 0, body_start_marker(), i as int);
    }
    let ghost start = i as int;
    push_string(&mut header, suppression_string());
    proof {
        assert(header.deep_view() =~= header_model(ls));
    }
    let mut cards: Vec<CardSpec> = Vec::new();
    proof {
        assert(cards_model(cards@) + scan_cards(ls, start) =~= scan_cards(ls, start));
    }
    let mut trailing: usize = 0;
    let mut done = false;
    while !done
        invariant
            0 <= i <= n,
            n == ls.len(),
            ls == lines.deep_view(),
            !done ==> cards_model(cards@) + scan_cards(ls, i as int) == scan_cards(ls, start),
            !done ==> scan_end(ls, i as int) == scan_end(ls, start),
            done ==> cards_model(cards@) == scan_cards(ls, start),
            done ==> trailing as int == n - scan_end(ls, start),
        decreases 2 * (n - i) + (if done { 0int } else { 1int }),
    {
        match scan_next_card(lines, i) {
            Some(p) => {
                let ghost prev_cards = cards@;
                let ghost cm = card_model(p.0);
                cards.push(p.0);
                proof {
                    assert(cards_model(cards@) =~= cards_model(prev_cards).push(cm)) by {
                        assert forall|j: int| 0 <= j < cards@.len() implies cards_model(cards@)[j]
                            == cards_model(prev_cards).push(cm)[j] by {
                            if j < prev_cards.len() {
                                assert(cards@[j] == prev_cards[j]);
                            }
                        }
                    }
                    assert(cards_model(prev_cards).push(cm) + scan_cards(ls, p.1 as int)
                        =~= cards_model(prev_cards) + (seq![cm] + scan_cards(ls, p.1 as int)));
                }
                i = p.1;
            },
            None => {
                proof {
                    assert(cards_model(cards@) + scan_cards(ls, i as int) =~= cards_model(
                        cards@,
                    ));
                }
                trailing = n - i;
                done = true;
            },
        }
    }
    ParsedDocument { header, cards, trailing_lines: trailing }
}

/// The page-numbering-suppression line as an owned string.
pub fn suppression_string() -> (r: String)
    ensures
        r@ == suppression_line(),
{
    "\\pagenumbering{gobble}".to_owned()
}

} // verus!
