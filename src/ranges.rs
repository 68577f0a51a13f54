use vstd::prelude::*;

use crate::text::{
    find_char, first_index, span, spans, to_chars, token_bounds, tokens, trim, trim_bounds, views,
};

verus! {

/// A request for one item, with the pages wanted (`None`: every page).
pub struct ItemReadRequest {
    pub id: String,
    pub pages: Option<String>,
}

/// Why a list of item selectors was refused.
pub enum RangeError {
    /// No non-empty token in the input.
    EmptyInput,
    /// A token whose identifier, before its `:`, is empty.
    EmptyIdentifier(String),
    /// Every token that has no `:`, in input order.
    MissingSelector(Vec<String>),
}

/// The position of the first `:` in a token, or its length where there is none.
pub open spec fn colon_at(t: Seq<char>) -> int {
    first_index(t, ':') as int
}

/// Whether a token carries a selector, i.e. holds a `:`.
pub open spec fn has_selector(t: Seq<char>) -> bool {
    colon_at(t) < t.len()
}

/// The identifier of a token: what stands before its first `:`, trimmed.
pub open spec fn id_of(t: Seq<char>) -> Seq<char> {
    trim(t.take(colon_at(t)))
}

/// The selector of a token: what stands after its first `:`, trimmed.
pub open spec fn selector_of(t: Seq<char>) -> Seq<char> {
    trim(t.skip(colon_at(t) + 1))
}

/// Whether a selector is `all`, in any mix of cases.
pub open spec fn is_all(t: Seq<char>) -> bool {
    &&& t.len() == 3
    &&& (t[0] == 'a' || t[0] == 'A')
    &&& (t[1] == 'l' || t[1] == 'L')
    &&& (t[2] == 'l' || t[2] == 'L')
}

/// The pages a token asks for: `None` for `all`, else its selector.
pub open spec fn pages_of(t: Seq<char>) -> Option<Seq<char>> {
    if is_all(selector_of(t)) {
        None
    } else {
        Some(selector_of(t))
    }
}

pub open spec fn opt_view(o: Option<String>) -> Option<Seq<char>> {
    match o {
        Some(s) => Some(s@),
        None => None,
    }
}

/// The request that a well-formed token stands for.
pub open spec fn request_of(req: ItemReadRequest, t: Seq<char>) -> bool {
    req.id@ == id_of(t) && opt_view(req.pages) == pages_of(t)
}

/// The tokens of `ts` that carry no selector, in order.
pub open spec fn without_selector(ts: Seq<Seq<char>>) -> Seq<Seq<char>>
    decreases ts.len(),
{
    if ts.len() == 0 {
        Seq::empty()
    } else {
        let r = without_selector(ts.drop_last());
        if has_selector(ts.last()) {
            r
        } else {
            r.push(ts.last())
        }
    }
}

/// Every token of `ts` that lacks a selector is listed by `without_selector`,
/// and every token listed there lacks one.
pub proof fn lemma_every_missing_selector_listed(ts: Seq<Seq<char>>)
    ensures
        forall|i: int|
            0 <= i < ts.len() && !has_selector(#[trigger] ts[i]) ==> without_selector(
                ts,
            ).contains(ts[i]),
        forall|j: int|
            0 <= j < without_selector(ts).len() ==> !has_selector(
                #[trigger] without_selector(ts)[j],
            ),
    decreases ts.len(),
{
    if ts.len() > 0 {
        let p = ts.drop_last();
        lemma_every_missing_selector_listed(p);
        let r = without_selector(p);
        assert forall|i: int| 0 <= i < ts.len() && !has_selector(#[trigger] ts[i]) implies without_selector(
            ts,
        ).contains(ts[i]) by {
            if i < ts.len() - 1 {
                assert(p[i] == ts[i]);
                let k = choose|k: int| 0 <= k < r.len() && r[k] == p[i];
                if !has_selector(ts.last()) {
                    assert(r.push(ts.last())[k] == ts[i]);
                }
            } else {
                assert(r.push(ts.last())[r.len() as int] == ts[i]);
            }
        }
        assert forall|j: int| 0 <= j < without_selector(ts).len() implies !has_selector(
            #[trigger] without_selector(ts)[j],
        ) by {
            if j < r.len() {
                assert(without_selector(ts)[j] == r[j]);
            }
        }
    }
}

/// `without_selector(ts)` is empty exactly when every token has a selector.
pub proof fn lemma_none_missing(ts: Seq<Seq<char>>)
    ensures
        without_selector(ts).len() == 0 <==> forall|i: int|
            0 <= i < ts.len() ==> has_selector(#[trigger] ts[i]),
{
    lemma_every_missing_selector_listed(ts);
    if without_selector(ts).len() > 0 {
        assert(!has_selector(without_selector(ts)[0]));
        lemma_listed_comes_from(ts, 0);
        let j = choose|j: int| 0 <= j < ts.len() && ts[j] == without_selector(ts)[0];
        assert(!has_selector(ts[j]));
    }
}

proof fn lemma_listed_comes_from(ts: Seq<Seq<char>>, j: int)
    requires
        0 <= j < without_selector(ts).len(),
    ensures
        exists|i: int| 0 <= i < ts.len() && ts[i] == without_selector(ts)[j],
    decreases ts.len(),
{
    let p = ts.drop_last();
    let r = without_selector(p);
    if j < r.len() {
        lemma_listed_comes_from(p, j);
        let i = choose|i: int| 0 <= i < p.len() && p[i] == r[j];
        assert(ts[i] == without_selector(ts)[j]);
    } else {
        assert(ts[ts.len() - 1] == without_selector(ts)[j]);
    }
}

/// Splits `ids_str` on `,`, trims each piece and keeps the non-empty ones, in order.
pub fn parse_ids(ids_str: &str) -> (r: Vec<String>)
    ensures
        views(r@) == tokens(ids_str@),
{
    let chars = to_chars(ids_str);
    let bounds = token_bounds(&chars);
    let mut r: Vec<String> = Vec::new();
    let mut i: usize = 0;
    while i < bounds.len()
        invariant
            chars@ == ids_str@,
            i <= bounds@.len(),
            spans(chars@, bounds@, tokens(ids_str@)),
            r@.len() == i,
            forall|j: int| 0 <= j < i ==> r@[j]@ == tokens(ids_str@)[j],
        decreases bounds@.len() - i,
    {
        let (a, b) = bounds[i];
        assert(span(chars@, bounds@[i as int], tokens(ids_str@)[i as int]));
        r.push(String::from_str(ids_str.substring_char(a, b)));
        i = i + 1;
    }
    assert(views(r@) =~= tokens(ids_str@));
    r
}

/// What parsing the tokens `ts` owes: the requests, one per token and in order,
/// when every token has a selector and a non-empty identifier; else the first
/// failure in the order `EmptyInput`, `MissingSelector` (listing every token
/// without a selector), `EmptyIdentifier` (naming the first such token).
pub open spec fn parse_outcome(ts: Seq<Seq<char>>, r: Result<Vec<ItemReadRequest>, RangeError>) -> bool {
    match r {
        Ok(v) => {
            &&& ts.len() > 0
            &&& forall|i: int|
                0 <= i < ts.len() ==> has_selector(#[trigger] ts[i]) && id_of(ts[i]).len() > 0
            &&& v@.len() == ts.len()
            &&& forall|i: int| 0 <= i < ts.len() ==> request_of(#[trigger] v@[i], ts[i])
        },
        Err(RangeError::EmptyInput) => ts.len() == 0,
        Err(RangeError::MissingSelector(m)) => {
            &&& exists|i: int| 0 <= i < ts.len() && !has_selector(#[trigger] ts[i])
            &&& views(m@) == without_selector(ts)
        },
        Err(RangeError::EmptyIdentifier(t)) => {
            &&& forall|i: int| 0 <= i < ts.len() ==> has_selector(#[trigger] ts[i])
            &&& exists|j: int|
                0 <= j < ts.len() && id_of(#[trigger] ts[j]).len() == 0 && t@ == ts[j] && forall|
                    k: int,
                | 0 <= k < j ==> id_of(#[trigger] ts[k]).len() > 0
        },
    }
}

/// Parses `id:selector` tokens separated by commas into item requests.
/// Every token must name its pages; `all`, in any case, asks for every page.
/// Nothing is returned unless every token is well formed.
pub fn parse_ids_with_ranges(ids_str: &str) -> (r: Result<Vec<ItemReadRequest>, RangeError>)
    ensures
        parse_outcome(tokens(ids_str@), r),
{
    let chars = to_chars(ids_str);
    let bounds = token_bounds(&chars);
    let ghost ts = tokens(ids_str@);
    let n = bounds.len();
    if n == 0 {
        return Err(RangeError::EmptyInput);
    }
    let mut missing: Vec<String> = Vec::new();
    let mut i: usize = 0;
    assert(ts.take(0) =~= Seq::<Seq<char>>::empty());
    while i < n
        invariant
            chars@ == ids_str@,
            ts == tokens(ids_str@),
            n == bounds@.len(),
            spans(chars@, bounds@, ts),
            i <= n,
            views(missing@) == without_selector(ts.take(i as int)),
        decreases n - i,
    {
        let (a, b) = bounds[i];
        assert(span(chars@, bounds@[i as int], ts[i as int]));
        let k = find_char(&chars, ':', a, b);
        let ghost before = missing@;
        proof {
            assert(ts.take(i + 1).drop_last() =~= ts.take(i as int));
            assert(ts.take(i + 1).last() == ts[i as int]);
        }
        if k == b {
            missing.push(String::from_str(ids_str.substring_char(a, b)));
            assert(views(missing@) =~= views(before).push(ts[i as int]));
        }
        i = i + 1;
    }
    assert(ts.take(n as int) =~= ts);
    proof {
        lemma_none_missing(ts);
    }
    if missing.len() > 0 {
        return Err(RangeError::MissingSelector(missing));
    }
    let mut items: Vec<ItemReadRequest> = Vec::new();
    i = 0;
    while i < n
        invariant
            chars@ == ids_str@,
            ts == tokens(ids_str@),
            n == bounds@.len() == ts.len(),
            spans(chars@, bounds@, ts),
            i <= n,
            forall|j: int| 0 <= j < n ==> has_selector(#[trigger] ts[j]),
            items@.len() == i,
            forall|j: int| 0 <= j < i ==> request_of(#[trigger] items@[j], ts[j]),
            forall|j: int| 0 <= j < i ==> id_of(#[trigger] ts[j]).len() > 0,
        decreases n - i,
    {
        let (a, b) = bounds[i];
        assert(span(chars@, bounds@[i as int], ts[i as int]));
        assert(has_selector(ts[i as int]));
        let k = find_char(&chars, ':', a, b);
        let ghost t = chars@.subrange(a as int, b as int);
        let (ia, ib) = trim_bounds(&chars, a, k);
        assert(t.take(k - a) =~= chars@.subrange(a as int, k as int));
        if ia == ib {
            let ghost j = i as int;
            assert(id_of(ts[j]).len() == 0);
            assert(forall|k: int| 0 <= k < j ==> id_of(#[trigger] ts[k]).len() > 0);
            return Err(RangeError::EmptyIdentifier(String::from_str(ids_str.substring_char(a, b))));
        }
        let (sa, sb) = trim_bounds(&chars, k + 1, b);
        assert(t.skip(k - a + 1) =~= chars@.subrange(k + 1, b as int));
        let pages = if is_all_at(&chars, sa, sb) {
            None
        } else {
            Some(String::from_str(ids_str.substring_char(sa, sb)))
        };
        let req = ItemReadRequest { id: String::from_str(ids_str.substring_char(ia, ib)), pages };
        assert(request_of(req, ts[i as int]));
        let ghost before = items@;
        items.push(req);
        assert forall|j: int| 0 <= j <= i implies request_of(#[trigger] items@[j], ts[j]) by {
            if j < i {
                assert(items@[j] == before[j]);
            }
        }
        i = i + 1;
    }
    Ok(items)
}

/// The strings of `ts` with `sep` between each two.
pub open spec fn join(ts: Seq<Seq<char>>, sep: Seq<char>) -> Seq<char>
    decreases ts.len(),
{
    if ts.len() == 0 {
        Seq::empty()
    } else if ts.len() == 1 {
        ts[0]
    } else {
        join(ts.drop_last(), sep) + sep + ts.last()
    }
}

/// Each token with `:all` added, as the corrected form to suggest.
pub open spec fn with_all(ts: Seq<Seq<char>>) -> Seq<Seq<char>> {
    ts.map_values(|t: Seq<char>| t + ":all"@)
}

pub open spec fn missing_message(ts: Seq<Seq<char>>) -> Seq<char> {
    "Missing page range for: "@ + join(ts, ", "@) + MISSING_HELP@ + join(with_all(ts), ","@)
        + SELECTOR_FORMATS@
}

/// The message that explains an error.
pub open spec fn error_text(e: RangeError) -> Seq<char> {
    match e {
        RangeError::EmptyInput => "No item IDs provided"@,
        RangeError::EmptyIdentifier(t) => "Empty ID found in: '"@ + t@ + "'"@,
        RangeError::MissingSelector(m) => missing_message(views(m@)),
    }
}

pub const MISSING_HELP: &'static str =
    "\n\nEvery ID must specify a page range. Use 'all' for all pages.\nExample: ";

pub const SELECTOR_FORMATS: &'static str = "\n\nFormats:\n  \u{2022} id:all        - All pages\n  \u{2022} id:1-5        - Pages 1 through 5\n  \u{2022} id:1,3,5      - Specific pages\n  \u{2022} id:1-3,7,10   - Combined ranges";

/// Joins `parts` with `sep` between each two.
pub fn join_with(parts: &Vec<String>, sep: &str) -> (r: String)
    ensures
        r@ == join(views(parts@), sep@),
{
    let mut r = String::new();
    let mut i: usize = 0;
    assert(views(parts@).take(0) =~= Seq::<Seq<char>>::empty());
    while i < parts.len()
        invariant
            i <= parts@.len(),
            r@ == join(views(parts@).take(i as int), sep@),
        decreases parts@.len() - i,
    {
        if i > 0 {
            r.append(sep);
        }
        r.append(parts[i].as_str());
        assert(views(parts@).take(i + 1).drop_last() =~= views(parts@).take(i as int));
        i = i + 1;
    }
    assert(views(parts@).take(parts@.len() as int) =~= views(parts@));
    r
}

impl RangeError {
    /// The message shown for this error; for a missing selector it lists every
    /// offending token, a corrected example for each, and the accepted formats.
    pub fn message(&self) -> (r: String)
        ensures
            r@ == error_text(*self),
    {
        match self {
            RangeError::EmptyInput => String::from_str("No item IDs provided"),
            RangeError::EmptyIdentifier(t) => {
                let mut r = String::from_str("Empty ID found in: '");
                r.append(t.as_str());
                r.append("'");
                r
            },
            RangeError::MissingSelector(m) => {
                let mut examples: Vec<String> = Vec::new();
                let mut i: usize = 0;
                while i < m.len()
                    invariant
                        i <= m@.len(),
                        examples@.len() == i,
                        forall|j: int|
                            0 <= j < i ==> #[trigger] examples@[j]@ == m@[j]@ + ":all"@,
                    decreases m@.len() - i,
                {
                    let mut e = m[i].clone();
                    e.append(":all");
                    examples.push(e);
                    i = i + 1;
                }
                assert(views(examples@) =~= with_all(views(m@)));
                let mut r = String::from_str("Missing page range for: ");
                let listed = join_with(m, ", ");
                r.append(listed.as_str());
                r.append(MISSING_HELP);
                let suggested = join_with(&examples, ",");
                r.append(suggested.as_str());
                r.append(SELECTOR_FORMATS);
                r
            },
        }
    }
}

/// The tokens that a failure reports as lacking a selector.
pub open spec fn reported_missing(r: Result<Vec<ItemReadRequest>, RangeError>) -> Seq<Seq<char>> {
    match r {
        Err(RangeError::MissingSelector(m)) => views(m@),
        _ => Seq::empty(),
    }
}

/// Well-formed input parses in full: when every token has a selector and a
/// non-empty identifier, the result holds one request per token, in input
/// order, and a selector of `all`, in any case, asks for every page.
pub proof fn lemma_well_formed_input_parses(
    ts: Seq<Seq<char>>,
    r: Result<Vec<ItemReadRequest>, RangeError>,
)
    requires
        parse_outcome(ts, r),
        ts.len() > 0,
        forall|i: int| 0 <= i < ts.len() ==> has_selector(#[trigger] ts[i]) && id_of(ts[i]).len() > 0,
    ensures
        r is Ok,
        r->Ok_0@.len() == ts.len(),
        forall|i: int|
            0 <= i < ts.len() ==> {
                &&& (#[trigger] r->Ok_0@[i]).id@ == id_of(ts[i])
                &&& (r->Ok_0@[i].pages is None <==> is_all(selector_of(ts[i])))
                &&& (r->Ok_0@[i].pages matches Some(p) ==> p@ == selector_of(ts[i]))
            },
{
    match r {
        Ok(v) => {
            assert forall|i: int| 0 <= i < ts.len() implies {
                &&& (#[trigger] v@[i]).id@ == id_of(ts[i])
                &&& (v@[i].pages is None <==> is_all(selector_of(ts[i])))
                &&& (v@[i].pages matches Some(p) ==> p@ == selector_of(ts[i]))
            } by {
                assert(request_of(v@[i], ts[i]));
            }
        },
        Err(RangeError::EmptyIdentifier(t)) => {
            let j = choose|j: int|
                0 <= j < ts.len() && id_of(#[trigger] ts[j]).len() == 0 && t@ == ts[j] && forall|
                    k: int,
                | 0 <= k < j ==> id_of(#[trigger] ts[k]).len() > 0;
            assert(id_of(ts[j]).len() > 0);
        },
        Err(RangeError::MissingSelector(_)) => {
            let i = choose|i: int| 0 <= i < ts.len() && !has_selector(#[trigger] ts[i]);
            assert(has_selector(ts[i]));
        },
        Err(RangeError::EmptyInput) => {},
    }
}

/// Any token without a selector makes parsing fail, and the failure names
/// every such token, in input order, and no other.
pub proof fn lemma_every_missing_selector_reported(
    ts: Seq<Seq<char>>,
    r: Result<Vec<ItemReadRequest>, RangeError>,
)
    requires
        parse_outcome(ts, r),
        exists|i: int| 0 <= i < ts.len() && !has_selector(#[trigger] ts[i]),
    ensures
        r is Err && r->Err_0 is MissingSelector,
        reported_missing(r) == without_selector(ts),
        forall|i: int|
            0 <= i < ts.len() && !has_selector(#[trigger] ts[i]) ==> reported_missing(r).contains(
                ts[i],
            ),
        forall|j: int|
            0 <= j < reported_missing(r).len() ==> !has_selector(#[trigger] reported_missing(r)[j]),
{
    let i = choose|i: int| 0 <= i < ts.len() && !has_selector(#[trigger] ts[i]);
    lemma_every_missing_selector_listed(ts);
    match r {
        Ok(_) => {
            assert(has_selector(ts[i]));
        },
        Err(RangeError::EmptyIdentifier(_)) => {
            assert(has_selector(ts[i]));
        },
        _ => {},
    }
}

/// A token with an empty identifier makes the whole parse fail, however
/// many other tokens are well formed: no partial result is returned, and
/// the failure names the first such token.
pub proof fn lemma_empty_identifier_rejects_all(
    ts: Seq<Seq<char>>,
    r: Result<Vec<ItemReadRequest>, RangeError>,
    j: int,
)
    requires
        parse_outcome(ts, r),
        forall|i: int| 0 <= i < ts.len() ==> has_selector(#[trigger] ts[i]),
        0 <= j < ts.len(),
        id_of(ts[j]).len() == 0,
    ensures
        r is Err && r->Err_0 is EmptyIdentifier,
{
    lemma_none_missing(ts);
    match r {
        Ok(_) => {
            assert(id_of(ts[j]).len() > 0);
        },
        Err(RangeError::MissingSelector(_)) => {
            let i = choose|i: int| 0 <= i < ts.len() && !has_selector(#[trigger] ts[i]);
            assert(has_selector(ts[i]));
        },
        _ => {},
    }
}

fn is_all_at(s: &Vec<char>, a: usize, b: usize) -> (r: bool)
    requires
        a <= b <= s@.len(),
    ensures
        r == is_all(s@.subrange(a as int, b as int)),
{
    b - a == 3 && (s[a] == 'a' || s[a] == 'A') && (s[a + 1] == 'l' || s[a + 1] == 'L') && (s[a
        + 2] == 'l' || s[a + 2] == 'L')
}

} // verus!
