//! The argument splitter: cuts the argument text of an action into the arguments that
//! the process is started with.
//!
//! A double quote switches quoting on or off and is never part of an argument. Outside
//! quotes a space or a tab ends the argument; inside quotes it is part of it. Empty
//! arguments are dropped, and nothing is an escape.
use vstd::prelude::*;
use crate::text::{chars_of, push_char, strings_view};

verus! {

/// Where the splitter stands after a part of the text: the arguments that are complete,
/// the argument under way, and whether quoting is on.
pub struct ScanState {
    pub tokens: Seq<Seq<char>>,
    pub current: Seq<char>,
    pub in_quotes: bool,
}

/// Whether `c` separates arguments outside quotes.
pub open spec fn is_separator(c: char) -> bool {
    c == ' ' || c == '\t'
}

/// The splitter's state after one more character.
pub open spec fn scan_step(st: ScanState, c: char) -> ScanState {
    if c == '"' {
        ScanState { in_quotes: !st.in_quotes, ..st }
    } else if is_separator(c) && !st.in_quotes {
        if st.current.len() > 0 {
            ScanState { tokens: st.tokens.push(st.current), current: Seq::empty(), ..st }
        } else {
            st
        }
    } else {
        ScanState { current: st.current.push(c), ..st }
    }
}

/// The splitter's state after the whole of `s`.
pub open spec fn scan(s: Seq<char>) -> ScanState
    decreases s.len(),
{
    if s.len() == 0 {
        ScanState { tokens: Seq::empty(), current: Seq::empty(), in_quotes: false }
    } else {
        scan_step(scan(s.drop_last()), s.last())
    }
}

/// The arguments that the text `s` holds.
pub open spec fn parse_arguments_spec(s: Seq<char>) -> Seq<Seq<char>> {
    let st = scan(s);
    if st.current.len() > 0 {
        st.tokens.push(st.current)
    } else {
        st.tokens
    }
}

/// Splits an argument text into arguments, respecting double quotes.
pub fn parse_arguments(args: &str) -> (result: Vec<String>)
    ensures
        strings_view(result@) == parse_arguments_spec(args@),
{
    let chars = chars_of(args);
    let mut result: Vec<String> = Vec::new();
    let mut current = String::new();
    let mut in_quotes = false;
    let mut i: usize = 0;
    assert(strings_view(result@) =~= Seq::<Seq<char>>::empty());
    while i < chars.len()
        invariant
            i <= chars.len(),
            scan(chars@.take(i as int)) == (ScanState {
                tokens: strings_view(result@),
                current: current@,
                in_quotes,
            }),
        decreases chars.len() - i,
    {
        let c = chars[i];
        proof {
            assert(chars@.take(i + 1).drop_last() =~= chars@.take(i as int));
            assert(chars@.take(i + 1).last() == c);
        }
        if c == '"' {
            in_quotes = !in_quotes;
        } else if (c == ' ' || c == '\t') && !in_quotes {
            if !current.as_str().is_empty() {
                let ghost before = strings_view(result@);
                let ghost token = current@;
                result.push(current);
                current = String::new();
                assert(strings_view(result@) =~= before.push(token));
            }
        } else {
            push_char(&mut current, c);
        }
        i += 1;
    }
    assert(chars@.take(chars.len() as int) =~= chars@);
    if !current.as_str().is_empty() {
        let ghost before = strings_view(result@);
        let ghost token = current@;
        result.push(current);
        assert(strings_view(result@) =~= before.push(token));
    }
    result
}

/// Whether every complete argument is non-empty and no argument holds a quote.
pub open spec fn clean(st: ScanState) -> bool {
    &&& forall|i: int| 0 <= i < st.tokens.len() ==> (#[trigger] st.tokens[i]).len() > 0
    &&& forall|i: int, j: int|
        0 <= i < st.tokens.len() && 0 <= j < st.tokens[i].len() ==> #[trigger] st.tokens[i][j]
            != '"'
    &&& forall|j: int| 0 <= j < st.current.len() ==> #[trigger] st.current[j] != '"'
}

/// The splitter's state is clean after any text.
pub proof fn lemma_scan_clean(s: Seq<char>)
    ensures
        clean(scan(s)),
    decreases s.len(),
{
    if s.len() > 0 {
        lemma_scan_clean(s.drop_last());
    }
}

/// No argument is empty, and no argument holds a double quote.
pub proof fn lemma_arguments_clean(s: Seq<char>)
    ensures
        forall|i: int|
            0 <= i < parse_arguments_spec(s).len() ==> (#[trigger] parse_arguments_spec(s)[i]).len()
                > 0,
        forall|i: int, j: int|
            0 <= i < parse_arguments_spec(s).len() && 0 <= j < parse_arguments_spec(s)[i].len()
                ==> #[trigger] parse_arguments_spec(s)[i][j] != '"',
{
    lemma_scan_clean(s);
}

/// Whether no argument of the state holds a space or a tab.
pub open spec fn unbroken(st: ScanState) -> bool {
    &&& !st.in_quotes
    &&& forall|i: int, j: int|
        0 <= i < st.tokens.len() && 0 <= j < st.tokens[i].len() ==> !is_separator(
            #[trigger] st.tokens[i][j],
        )
    &&& forall|j: int| 0 <= j < st.current.len() ==> !is_separator(#[trigger] st.current[j])
}

/// In a text without quotes the splitter never switches quoting on, and no argument
/// holds a space or a tab.
pub proof fn lemma_scan_unquoted(s: Seq<char>)
    requires
        forall|k: int| 0 <= k < s.len() ==> s[k] != '"',
    ensures
        unbroken(scan(s)),
    decreases s.len(),
{
    if s.len() > 0 {
        lemma_scan_unquoted(s.drop_last());
    }
}

/// In a text without quotes no argument holds a space or a tab.
pub proof fn lemma_unquoted_arguments(s: Seq<char>)
    requires
        forall|k: int| 0 <= k < s.len() ==> s[k] != '"',
    ensures
        forall|i: int, j: int|
            0 <= i < parse_arguments_spec(s).len() && 0 <= j < parse_arguments_spec(s)[i].len()
                ==> !is_separator(#[trigger] parse_arguments_spec(s)[i][j]),
{
    lemma_scan_unquoted(s);
}

/// The empty text holds no argument.
pub proof fn lemma_no_arguments()
    ensures
        parse_arguments_spec(Seq::empty()) == Seq::<Seq<char>>::empty(),
{
}

/// The number of double quotes in `s`.
pub open spec fn quote_count(s: Seq<char>) -> nat
    decreases s.len(),
{
    if s.len() == 0 {
        0
    } else if s.last() == '"' {
        quote_count(s.drop_last()) + 1
    } else {
        quote_count(s.drop_last())
    }
}

/// Whether the character at `i` becomes part of an argument: it is no quote, and it is
/// no space or tab outside quotes, that is, behind an even number of quotes.
pub open spec fn is_kept(s: Seq<char>, i: int) -> bool {
    s[i] != '"' && !(is_separator(s[i]) && quote_count(s.take(i)) % 2 == 0)
}

/// The characters of `s` that become part of an argument, in order.
pub open spec fn kept(s: Seq<char>) -> Seq<char>
    decreases s.len(),
{
    if s.len() == 0 {
        Seq::empty()
    } else if is_kept(s, s.len() - 1) {
        kept(s.drop_last()).push(s.last())
    } else {
        kept(s.drop_last())
    }
}

/// The arguments written one behind the other.
pub open spec fn run_together(tokens: Seq<Seq<char>>) -> Seq<char>
    decreases tokens.len(),
{
    if tokens.len() == 0 {
        Seq::empty()
    } else {
        run_together(tokens.drop_last()) + tokens.last()
    }
}

/// Quoting is on exactly behind an odd number of quotes, and the arguments so far,
/// complete and under way, are the characters kept so far.
pub proof fn lemma_scan_kept(s: Seq<char>)
    ensures
        scan(s).in_quotes <==> quote_count(s) % 2 == 1,
        run_together(scan(s).tokens) + scan(s).current == kept(s),
    decreases s.len(),
{
    if s.len() == 0 {
        assert(run_together(scan(s).tokens) + scan(s).current =~= kept(s));
    } else {
        let front = s.drop_last();
        let before = scan(front);
        let after = scan(s);
        let c = s.last();
        lemma_scan_kept(front);
        assert(s.take(s.len() - 1) =~= front);
        if c == '"' {
        } else if is_separator(c) && !before.in_quotes {
            if before.current.len() > 0 {
                assert(after.tokens.drop_last() =~= before.tokens);
                assert(after.tokens.last() == before.current);
                assert(run_together(after.tokens) + after.current =~= run_together(before.tokens)
                    + before.current);
            }
        } else {
            assert(run_together(after.tokens) + after.current =~= (run_together(before.tokens)
                + before.current).push(c));
        }
    }
}

/// The arguments, written one behind the other, are the text without its quotes and
/// without the spaces and tabs that stand outside quotes: nothing else is lost, and
/// nothing is added or moved.
pub proof fn lemma_arguments_kept(s: Seq<char>)
    ensures
        run_together(parse_arguments_spec(s)) == kept(s),
{
    lemma_scan_kept(s);
    let st = scan(s);
    if st.current.len() > 0 {
        assert(st.tokens.push(st.current).drop_last() =~= st.tokens);
    } else {
        assert(run_together(st.tokens) + st.current =~= run_together(st.tokens));
    }
}

} // verus!
