//! The code emitter: source text that rebuilds a manifest at run time, as a
//! list of path literals or as one load request for each path.

use vstd::prelude::*;
use vstd::string::StringExecFns;
use crate::normalize::{normalize_paths, normalized};
use crate::text::{chars_of, string_of};

verus! {

/// How one character stands inside a string literal: a quote and a backslash
/// behind a backslash, any other character as it is.
pub open spec fn escaped_char(c: char) -> Seq<char> {
    if c == '"' || c == '\\' {
        seq!['\\', c]
    } else {
        seq![c]
    }
}

/// The text of the string literal that denotes `text`, without its quotes.
pub open spec fn escaped(text: Seq<char>) -> Seq<char>
    decreases text.len(),
{
    if text.len() == 0 {
        Seq::empty()
    } else {
        escaped_char(text[0]) + escaped(text.skip(1))
    }
}

/// One statement for each path, in order: `open`, the path as the text of a
/// literal, `close`.
pub open spec fn statements(open: Seq<char>, paths: Seq<Seq<char>>, close: Seq<char>) -> Seq<char>
    decreases paths.len(),
{
    if paths.len() == 0 {
        Seq::empty()
    } else {
        open + escaped(paths[0]) + close + statements(open, paths.skip(1), close)
    }
}

/// The expression that evaluates to the list of `paths`.
pub open spec fn literal_list_code(paths: Seq<Seq<char>>) -> Seq<char> {
    "{let mut paths = Vec::new();"@ + statements("paths.push(\""@, paths, "\");"@) + "paths}"@
}

/// The expression that requests the load of each of `paths` and evaluates to
/// the handles.
pub open spec fn load_request_code(paths: Seq<Seq<char>>) -> Seq<char> {
    "{let mut handles = Vec::new(); "@ + statements(
        "handles.push(asset_server.load_untyped(\""@,
        paths,
        "\").untyped());"@,
    ) + " handles}"@
}

/// Escaping goes through a text piece by piece.
pub proof fn lemma_escaped_concat(a: Seq<char>, b: Seq<char>)
    ensures
        escaped(a + b) == escaped(a) + escaped(b),
    decreases a.len(),
{
    if a.len() == 0 {
        assert(a + b =~= b);
        assert(escaped(a) + escaped(b) =~= escaped(b));
    } else {
        assert((a + b).skip(1) =~= a.skip(1) + b);
        lemma_escaped_concat(a.skip(1), b);
        assert(escaped_char(a[0]) + (escaped(a.skip(1)) + escaped(b)) =~= (escaped_char(a[0])
            + escaped(a.skip(1))) + escaped(b));
    }
}

/// The statements go through a list of paths piece by piece.
pub proof fn lemma_statements_concat(
    open: Seq<char>,
    a: Seq<Seq<char>>,
    b: Seq<Seq<char>>,
    close: Seq<char>,
)
    ensures
        statements(open, a + b, close) == statements(open, a, close) + statements(open, b, close),
    decreases a.len(),
{
    if a.len() == 0 {
        assert(a + b =~= b);
        assert(statements(open, a, close) + statements(open, b, close) =~= statements(
            open,
            b,
            close,
        ));
    } else {
        assert((a + b).skip(1) =~= a.skip(1) + b);
        lemma_statements_concat(open, a.skip(1), b, close);
        let head = open + escaped(a[0]) + close;
        assert(head + (statements(open, a.skip(1), close) + statements(open, b, close)) =~= (head
            + statements(open, a.skip(1), close)) + statements(open, b, close));
    }
}

/// Writes `text` as the text of a string literal, without its quotes: every
/// quote and every backslash gets a backslash in front of it.
pub fn escape(text: &str) -> (out: String)
    ensures
        out@ == escaped(text@),
{
    let chars = chars_of(text);
    let mut out: Vec<char> = Vec::new();
    let mut i: usize = 0;
    assert(chars@.take(0) =~= Seq::<char>::empty());
    while i < chars.len()
        invariant
            i <= chars.len(),
            out@ == escaped(chars@.take(i as int)),
        decreases chars.len() - i,
    {
        let c = chars[i];
        proof {
            lemma_escaped_concat(chars@.take(i as int), seq![c]);
            assert(chars@.take(i as int) + seq![c] =~= chars@.take(i + 1));
            assert(escaped(seq![c].skip(1)) =~= Seq::<char>::empty());
            assert(escaped(seq![c]) =~= escaped_char(c));
        }
        if c == '"' || c == '\\' {
            out.push('\\');
        }
        out.push(c);
        assert(out@ =~= escaped(chars@.take(i as int)) + escaped_char(c));
        i += 1;
    }
    assert(chars@.take(i as int) =~= chars@);
    string_of(&out)
}

/// Writes one statement for each path: `open`, the path as the text of a
/// literal, `close`.
fn emit_statements(open: &str, paths: &Vec<String>, close: &str) -> (out: String)
    ensures
        out@ == statements(open@, paths.deep_view(), close@),
{
    let mut out = String::new();
    let mut i: usize = 0;
    let ghost all = paths.deep_view();
    assert(all.take(0) =~= Seq::<Seq<char>>::empty());
    while i < paths.len()
        invariant
            i <= paths.len(),
            all == paths.deep_view(),
            out@ == statements(open@, all.take(i as int), close@),
        decreases paths.len() - i,
    {
        let ghost before = out@;
        let literal = escape(paths[i].as_str());
        out.append(open);
        out.append(literal.as_str());
        out.append(close);
        proof {
            let one = seq![all[i as int]];
            lemma_statements_concat(open@, all.take(i as int), one, close@);
            assert(all.take(i as int) + one =~= all.take(i + 1));
            assert(statements(open@, one.skip(1), close@) =~= Seq::<char>::empty());
            assert(statements(open@, one, close@) =~= open@ + escaped(all[i as int]) + close@);
            assert(out@ =~= before + (open@ + escaped(all[i as int]) + close@));
        }
        i += 1;
    }
    assert(all.take(i as int) =~= all);
    out
}

/// Emits the expression that builds an empty list, appends one string literal
/// for each path of the manifest, and evaluates to the list.
pub fn load_assets(paths: &Vec<String>) -> (expression: String)
    ensures
        expression@ == literal_list_code(paths.deep_view()),
{
    let mut expression = String::from_str("{let mut paths = Vec::new();");
    let body = emit_statements("paths.push(\"", paths, "\");");
    expression.append(body.as_str());
    expression.append("paths}");
    expression
}

/// Emits the expression that builds an empty collection of handles, requests
/// the load of the asset path of each listed file by a string literal, and
/// evaluates to the handles.
pub fn wasm_load(files: &Vec<String>) -> (expression: String)
    ensures
        expression@ == load_request_code(
            files.deep_view().map_values(|path: Seq<char>| normalized(path)),
        ),
{
    let paths = normalize_paths(files);
    let mut expression = String::from_str("{let mut handles = Vec::new(); ");
    let load_block = emit_statements(
        "handles.push(asset_server.load_untyped(\"",
        &paths,
        "\").untyped());",
    );
    expression.append(load_block.as_str());
    expression.append(" handles}");
    expression
}

} // verus!
