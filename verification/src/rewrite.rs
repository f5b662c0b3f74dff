use vstd::prelude::*;
use crate::text::append_chars;
use crate::text::chars_of;
use crate::text::contains_seq;
use crate::text::lemma_replace_absent;
use crate::text::replace_all;
use crate::text::replaced;
use crate::text::string_of;

verus! {

/// The absolute URL that resolving `reference` against `base` yields under
/// standard URL-joining rules, or `None` when the pair does not resolve;
/// a function of the two strings alone.
pub uninterp spec fn url_join(base: Seq<char>, reference: Seq<char>) -> Option<Seq<char>>;

/// Relies on url::Url::parse and url::Url::join: resolving a reference
/// against a base URL is deterministic in the two strings, and fails exactly
/// when the pair cannot be resolved.
#[verifier::external_body]
fn resolve_url(base: &str, reference: &str) -> (r: Option<String>)
    ensures
        r.deep_view() == url_join(base@, reference@),
{
    match url::Url::parse(base) {
        Ok(b) => match b.join(reference) {
            Ok(u) => Some(u.to_string()),
            Err(_) => None,
        },
        Err(_) => None,
    }
}

/// The values of attribute `attr` on the elements of `html` matched by
/// `selector`, in document order; a function of the three strings alone.
pub uninterp spec fn selected_attrs(html: Seq<char>, selector: Seq<char>, attr: Seq<char>) -> Seq<
    Seq<char>,
>;

/// Relies on scraper's Selector::parse, Html::parse_document, Html::select
/// and Node::attr: parsing a document and listing the matched elements'
/// attribute values is deterministic in the document text, the selector and
/// the attribute name.
#[verifier::external_body]
fn select_attr_values(html: &str, selector: &str, attr: &str) -> (r: Vec<String>)
    ensures
        r.deep_view() == selected_attrs(html@, selector@, attr@),
{
    let sel = match scraper::Selector::parse(selector) {
        Ok(s) => s,
        Err(_) => return Vec::new(),
    };
    let doc = scraper::Html::parse_document(html);
    doc.select(&sel).filter_map(|e| e.value().attr(attr)).map(|v| v.to_string()).collect()
}

/// The fixed local proxy endpoint that rewritten URLs point back through.
pub open spec fn proxy_prefix() -> Seq<char> {
    "http://localhost:5173/proxy?url="@
}

/// The exact double-quoted literal form `attr="v"` that the rewriter
/// substitutes; other quoting forms never match and stay untouched.
pub open spec fn attr_pattern(attr: Seq<char>, v: Seq<char>) -> Seq<char> {
    attr + seq!['=', '"'] + v + seq!['"']
}

/// One substitution: where the value resolves against the base URL, every
/// occurrence of the literal `attr="value"` becomes `attr="proxied"`; where
/// it does not resolve, the text is unchanged.
pub open spec fn rewritten_one(
    t: Seq<char>,
    base: Seq<char>,
    attr: Seq<char>,
    v: Seq<char>,
) -> Seq<char> {
    match url_join(base, v) {
        Some(abs) => replaced(t, attr_pattern(attr, v), attr_pattern(attr, proxy_prefix() + abs)),
        None => t,
    }
}

/// A text that nowhere holds the exact double-quoted literal `attr="v"` —
/// an occurrence in any other quoting form among them — is left unchanged
/// by that value's substitution.
pub proof fn lemma_unmatched_literal_unchanged(
    t: Seq<char>,
    base: Seq<char>,
    attr: Seq<char>,
    v: Seq<char>,
)
    requires
        !contains_seq(t, attr_pattern(attr, v)),
    ensures
        rewritten_one(t, base, attr, v) == t,
{
    match url_join(base, v) {
        Some(abs) => {
            lemma_replace_absent(
                t,
                attr_pattern(attr, v),
                attr_pattern(attr, proxy_prefix() + abs),
            );
        },
        None => {},
    }
}

/// The substitutions for one attribute's matched values, applied in
/// document order.
pub open spec fn rewritten_vals(
    t: Seq<char>,
    base: Seq<char>,
    attr: Seq<char>,
    vals: Seq<Seq<char>>,
) -> Seq<char>
    decreases vals.len(),
{
    if vals.len() == 0 {
        t
    } else {
        rewritten_vals(rewritten_one(t, base, attr, vals[0]), base, attr, vals.skip(1))
    }
}

/// One pass of the table: the values come from the original document, the
/// substitutions accumulate in the working text.
pub open spec fn rewritten_pair(
    t: Seq<char>,
    orig: Seq<char>,
    base: Seq<char>,
    sel: Seq<char>,
    attr: Seq<char>,
) -> Seq<char> {
    rewritten_vals(t, base, attr, selected_attrs(orig, sel, attr))
}

/// The whole rewrite: the fixed (element, attribute) table applied in order,
/// every selection made against the original document text.
pub open spec fn rewritten_doc(orig: Seq<char>, base: Seq<char>) -> Seq<char> {
    let t1 = rewritten_pair(orig, orig, base, "a"@, "href"@);
    let t2 = rewritten_pair(t1, orig, base, "link"@, "href"@);
    let t3 = rewritten_pair(t2, orig, base, "script"@, "src"@);
    let t4 = rewritten_pair(t3, orig, base, "img"@, "src"@);
    let t5 = rewritten_pair(t4, orig, base, "iframe"@, "src"@);
    let t6 = rewritten_pair(t5, orig, base, "source"@, "src"@);
    let t7 = rewritten_pair(t6, orig, base, "embed"@, "src"@);
    rewritten_pair(t7, orig, base, "form"@, "action"@)
}

/// Builds the literal `attr="v"` character vector.
fn build_pattern(attr: &Vec<char>, v: &Vec<char>) -> (r: Vec<char>)
    ensures
        r@ == attr_pattern(attr@, v@),
{
    let mut out: Vec<char> = Vec::new();
    append_chars(&mut out, attr);
    out.push('=');
    out.push('"');
    append_chars(&mut out, v);
    out.push('"');
    proof {
        assert(out@ =~= attr_pattern(attr@, v@));
    }
    out
}

/// Applies one value's substitution to the working text.
fn rewrite_one(t: Vec<char>, base: &str, attr: &Vec<char>, v: &String) -> (r: Vec<char>)
    ensures
        r@ == rewritten_one(t@, base@, attr@, v@),
{
    match resolve_url(base, v.as_str()) {
        None => t,
        Some(abs) => {
            let vc = chars_of(v.as_str());
            let pat = build_pattern(attr, &vc);
            let mut target = chars_of("http://localhost:5173/proxy?url=");
            let absc = chars_of(abs.as_str());
            append_chars(&mut target, &absc);
            let sub = build_pattern(attr, &target);
            replace_all(&t, &pat, &sub)
        },
    }
}

/// Applies one row of the table to the working text.
fn rewrite_pair(t: Vec<char>, orig: &str, base: &str, sel: &str, attr: &str) -> (r: Vec<char>)
    ensures
        r@ == rewritten_pair(t@, orig@, base@, sel@, attr@),
{
    let vals = select_attr_values(orig, sel, attr);
    let attrc = chars_of(attr);
    let ghost vd = vals.deep_view();
    let mut cur = t;
    let mut i: usize = 0;
    proof {
        assert(vd.skip(0) =~= vd);
    }
    while i < vals.len()
        invariant
            i <= vd.len(),
            vd == vals.deep_view(),
            vd == selected_attrs(orig@, sel@, attr@),
            attrc@ == attr@,
            rewritten_vals(cur@, base@, attrc@, vd.skip(i as int)) == rewritten_vals(
                t@,
                base@,
                attrc@,
                vd,
            ),
        decreases vd.len() - i,
    {
        let ghost pre = cur@;
        cur = rewrite_one(cur, base, &attrc, &vals[i]);
        proof {
            assert(vals@[i as int].deep_view() == vd[i as int]);
            assert(vals@[i as int]@ == vd[i as int]);
            assert(vd.skip(i as int)[0] == vd[i as int]);
            assert(vd.skip(i as int).skip(1) =~= vd.skip(i as int + 1));
            assert(rewritten_vals(pre, base@, attrc@, vd.skip(i as int)) == rewritten_vals(
                cur@,
                base@,
                attrc@,
                vd.skip(i as int + 1),
            ));
        }
        i = i + 1;
    }
    proof {
        assert(vd.skip(vd.len() as int) =~= Seq::<Seq<char>>::empty());
    }
    cur
}

/// Rewrites a fetched HTML document so its resource links point back through
/// the proxy: for each row of the fixed (element, attribute) table, each
/// matched value that resolves against the base URL has its exact literal
/// `attr="value"` occurrences replaced, everywhere they occur in the text.
pub fn rewrite_html(base: &str, body: &str) -> (r: String)
    ensures
        r@ == rewritten_doc(body@, base@),
{
    let t0 = chars_of(body);
    let t1 = rewrite_pair(t0, body, base, "a", "href");
    let t2 = rewrite_pair(t1, body, base, "link", "href");
    let t3 = rewrite_pair(t2, body, base, "script", "src");
    let t4 = rewrite_pair(t3, body, base, "img", "src");
    let t5 = rewrite_pair(t4, body, base, "iframe", "src");
    let t6 = rewrite_pair(t5, body, base, "source", "src");
    let t7 = rewrite_pair(t6, body, base, "embed", "src");
    let t8 = rewrite_pair(t7, body, base, "form", "action");
    string_of(&t8)
}

} // verus!
