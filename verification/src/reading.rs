//! Reading emitted code back: what the statements of an emitted expression
//! denote, and that they denote the manifest they were emitted from.

use vstd::prelude::*;
use crate::codegen::{escaped, escaped_char, literal_list_code, load_request_code, statements};

verus! {

/// Where the string literal ends whose text begins at the start of `text`:
/// the index of the first quote that no backslash escapes, if there is one.
pub open spec fn literal_end(text: Seq<char>) -> Option<int>
    decreases text.len(),
{
    if text.len() == 0 {
        None
    } else if text[0] == '"' {
        Some(0)
    } else if text[0] == '\\' {
        if text.len() < 2 {
            None
        } else {
            match literal_end(text.skip(2)) {
                Some(end) => Some(end + 2),
                None => None,
            }
        }
    } else {
        match literal_end(text.skip(1)) {
            Some(end) => Some(end + 1),
            None => None,
        }
    }
}

/// The string that a literal with the text `text` denotes. Of the escapes
/// only `\"` and `\\` are read; a text with another escape, or with a quote
/// that nothing escapes, denotes nothing.
pub open spec fn unescaped(text: Seq<char>) -> Option<Seq<char>>
    decreases text.len(),
{
    if text.len() == 0 {
        Some(Seq::empty())
    } else if text[0] == '"' {
        None
    } else if text[0] == '\\' {
        if text.len() >= 2 && (text[1] == '"' || text[1] == '\\') {
            match unescaped(text.skip(2)) {
                Some(rest) => Some(seq![text[1]] + rest),
                None => None,
            }
        } else {
            None
        }
    } else {
        match unescaped(text.skip(1)) {
            Some(rest) => Some(seq![text[0]] + rest),
            None => None,
        }
    }
}

/// The strings that the statements of `code` hand over, in order, where
/// `code` is nothing but such statements: each one `open`, the text of a
/// string literal, and `close`, which begins with the closing quote.
pub open spec fn literals_of(open: Seq<char>, code: Seq<char>, close: Seq<char>) -> Option<
    Seq<Seq<char>>,
>
    decreases code.len(),
{
    if code.len() == 0 {
        Some(Seq::empty())
    } else if open.len() == 0 || !open.is_prefix_of(code) {
        None
    } else {
        let text = code.skip(open.len() as int);
        match literal_end(text) {
            None => None,
            Some(end) => if 0 <= end && end + close.len() <= text.len() && close.is_prefix_of(
                text.skip(end),
            ) {
                match (
                    unescaped(text.take(end)),
                    literals_of(open, text.skip(end + close.len()), close),
                ) {
                    (Some(first), Some(rest)) => Some(seq![first] + rest),
                    _ => None,
                }
            } else {
                None
            },
        }
    }
}

/// The strings that an expression hands over: `code` is `header`, then
/// statements, then `footer`.
pub open spec fn literals_between(
    header: Seq<char>,
    open: Seq<char>,
    code: Seq<char>,
    close: Seq<char>,
    footer: Seq<char>,
) -> Option<Seq<Seq<char>>> {
    if header.len() + footer.len() <= code.len() && header.is_prefix_of(code)
        && footer.is_suffix_of(code) {
        literals_of(open, code.subrange(header.len() as int, code.len() - footer.len()), close)
    } else {
        None
    }
}

/// The paths that the literal-list expression `code` evaluates to.
pub open spec fn listed_paths(code: Seq<char>) -> Option<Seq<Seq<char>>> {
    literals_between(
        "{let mut paths = Vec::new();"@,
        "paths.push(\""@,
        code,
        "\");"@,
        "paths}"@,
    )
}

/// The paths whose load the load-request expression `code` requests.
pub open spec fn requested_paths(code: Seq<char>) -> Option<Seq<Seq<char>>> {
    literals_between(
        "{let mut handles = Vec::new(); "@,
        "handles.push(asset_server.load_untyped(\""@,
        code,
        "\").untyped());"@,
        " handles}"@,
    )
}

/// The literal of an escaped text ends where the text ends: no quote in it
/// closes the literal early.
pub proof fn lemma_escaped_literal_ends(text: Seq<char>, tail: Seq<char>)
    requires
        tail.len() > 0,
        tail[0] == '"',
    ensures
        literal_end(escaped(text) + tail) == Some(escaped(text).len() as int),
    decreases text.len(),
{
    if text.len() == 0 {
        assert(escaped(text) + tail =~= tail);
    } else {
        let whole = escaped(text) + tail;
        let rest = escaped(text.skip(1)) + tail;
        lemma_escaped_literal_ends(text.skip(1), tail);
        if text[0] == '"' || text[0] == '\\' {
            assert(whole[0] == '\\');
            assert(whole.skip(2) =~= rest);
        } else {
            assert(whole[0] == text[0]);
            assert(whole.skip(1) =~= rest);
        }
    }
}

/// A literal denotes the text that was escaped into it.
pub proof fn lemma_unescaped_escaped(text: Seq<char>)
    ensures
        unescaped(escaped(text)) == Some(text),
    decreases text.len(),
{
    if text.len() > 0 {
        let whole = escaped(text);
        lemma_unescaped_escaped(text.skip(1));
        if text[0] == '"' || text[0] == '\\' {
            assert(whole[0] == '\\' && whole[1] == text[0]);
            assert(whole.skip(2) =~= escaped(text.skip(1)));
        } else {
            assert(whole[0] == text[0]);
            assert(whole.skip(1) =~= escaped(text.skip(1)));
        }
        assert(seq![text[0]] + text.skip(1) =~= text);
    }
}

/// The statements emitted for a list of paths hand over exactly those paths:
/// as many, in the same order, each equal to the path it was emitted from.
pub proof fn lemma_statements_read_back(
    open: Seq<char>,
    paths: Seq<Seq<char>>,
    close: Seq<char>,
)
    requires
        open.len() > 0,
        close.len() > 0,
        close[0] == '"',
    ensures
        literals_of(open, statements(open, paths, close), close) == Some(paths),
    decreases paths.len(),
{
    if paths.len() > 0 {
        let later = statements(open, paths.skip(1), close);
        let literal = escaped(paths[0]);
        let code = statements(open, paths, close);
        let text = code.skip(open.len() as int);
        let end = literal.len() as int;
        assert(code =~= open + (literal + (close + later)));
        assert(open =~= code.subrange(0, open.len() as int));
        assert(text =~= literal + (close + later));
        lemma_escaped_literal_ends(paths[0], close + later);
        assert(text.take(end) =~= literal);
        assert(text.skip(end) =~= close + later);
        assert(close =~= text.skip(end).subrange(0, close.len() as int));
        assert(text.skip(end + close.len()) =~= later);
        lemma_unescaped_escaped(paths[0]);
        lemma_statements_read_back(open, paths.skip(1), close);
        assert(seq![paths[0]] + paths.skip(1) =~= paths);
    }
}

/// The statements between a header and a footer hand over the paths they
/// were emitted from.
proof fn lemma_between_reads_back(
    header: Seq<char>,
    open: Seq<char>,
    paths: Seq<Seq<char>>,
    close: Seq<char>,
    footer: Seq<char>,
)
    requires
        open.len() > 0,
        close.len() > 0,
        close[0] == '"',
    ensures
        literals_between(
            header,
            open,
            header + statements(open, paths, close) + footer,
            close,
            footer,
        ) == Some(paths),
{
    let body = statements(open, paths, close);
    let code = header + body + footer;
    assert(header =~= code.subrange(0, header.len() as int));
    assert(footer =~= code.subrange(code.len() - footer.len(), code.len() as int));
    assert(code.subrange(header.len() as int, code.len() - footer.len()) =~= body);
    lemma_statements_read_back(open, paths, close);
}

/// The literal-list expression emitted for a manifest evaluates to a list
/// of exactly the paths of the manifest: as many, in the same order, each
/// equal to its entry.
pub proof fn lemma_literal_list_reads_back(paths: Seq<Seq<char>>)
    ensures
        listed_paths(literal_list_code(paths)) == Some(paths),
{
    reveal_strlit("paths.push(\"");
    reveal_strlit("\");");
    lemma_between_reads_back(
        "{let mut paths = Vec::new();"@,
        "paths.push(\""@,
        paths,
        "\");"@,
        "paths}"@,
    );
}

/// The load-request expression emitted for a manifest requests exactly the
/// paths of the manifest: as many loads, in the same order, each for the
/// path of its entry.
pub proof fn lemma_load_requests_read_back(paths: Seq<Seq<char>>)
    ensures
        requested_paths(load_request_code(paths)) == Some(paths),
{
    reveal_strlit("handles.push(asset_server.load_untyped(\"");
    reveal_strlit("\").untyped());");
    lemma_between_reads_back(
        "{let mut handles = Vec::new(); "@,
        "handles.push(asset_server.load_untyped(\""@,
        paths,
        "\").untyped());"@,
        " handles}"@,
    );
}

} // verus!
