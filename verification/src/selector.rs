//! Target selectors: the tokens a caller supplies to pick one target,
//! and their resolution against a discovery list.

use vstd::prelude::*;

use crate::strutil;
use crate::targets::Target;

verus! {

/// A parsed selector token: a list index or a target identifier.
#[derive(Debug, Clone, PartialEq, Eq)]
pub enum TargetSelector {
    Index(usize),
    Id(String),
}

/// Why a selector was rejected or failed to resolve.
#[derive(Debug)]
pub enum SelectorError {
    InvalidSelector(String),
    IndexOutOfRange { index: usize, len: usize },
    NoMatch { selector: String },
    MultipleMatches { selector: String },
}

/// What a selector token means, at the specification level.
pub enum SelClass {
    /// A list index.
    Index(int),
    /// A target identifier to match literally.
    Id(Seq<char>),
    /// Rejected, with the message reported.
    Invalid(Seq<char>),
}

/// Message for an empty selector.
pub open spec fn msg_empty_selector() -> Seq<char> {
    "empty"@
}

/// Message for an index that does not parse.
pub open spec fn msg_invalid_index(rest: Seq<char>) -> Seq<char> {
    "invalid index: "@ + rest
}

/// Is every character of `s` an ASCII digit?
pub open spec fn all_digit_chars(s: Seq<char>) -> bool {
    forall|i: int| 0 <= i < s.len() ==> strutil::is_digit_char(#[trigger] s[i])
}

/// The meaning of a selector token.
///
/// After trimming: an empty token is rejected; `index:<n>` and a bare
/// run of digits select by list position; `serial:...` and
/// `halfkay:...` match an identifier literally; anything else is
/// shorthand for `serial:<token>`.
pub open spec fn classify_selector(s: Seq<char>) -> SelClass {
    let t = strutil::trim_chars(s);
    if t.len() == 0 {
        SelClass::Invalid(msg_empty_selector())
    } else if strutil::has_prefix(t, "index:"@) {
        let rest = strutil::trim_chars(t.skip("index:"@.len() as int));
        if strutil::parses_as_usize(rest) {
            SelClass::Index(strutil::digits_val(strutil::usize_digits_of(rest)))
        } else {
            SelClass::Invalid(msg_invalid_index(rest))
        }
    } else if strutil::has_prefix(t, "serial:"@) || strutil::has_prefix(t, "halfkay:"@) {
        SelClass::Id(t)
    } else if all_digit_chars(t) {
        if strutil::parses_as_usize(t) {
            SelClass::Index(strutil::digits_val(strutil::usize_digits_of(t)))
        } else {
            SelClass::Invalid(msg_invalid_index(t))
        }
    } else {
        SelClass::Id("serial:"@ + t)
    }
}

/// Does the parsed selector `r` present the meaning `c`?
pub open spec fn selector_matches(r: Result<TargetSelector, SelectorError>, c: SelClass) -> bool {
    match c {
        SelClass::Index(n) => r matches Ok(TargetSelector::Index(i)) && i == n,
        SelClass::Id(id) => r matches Ok(TargetSelector::Id(s)) && s@ == id,
        SelClass::Invalid(m) => r matches Err(SelectorError::InvalidSelector(s)) && s@ == m,
    }
}

/// Parses a selector token.
pub fn parse_selector(s: &str) -> (r: Result<TargetSelector, SelectorError>)
    ensures
        selector_matches(r, classify_selector(s@)),
{
    let bounds = strutil::trim_str_bounds(s);
    let t: &str = s.substring_char(bounds.0, bounds.1);
    let ghost tg = strutil::trim_chars(s@);
    assert(t@ == tg);
    let tn = t.unicode_len();
    if tn == 0 {
        return Err(SelectorError::InvalidSelector("empty".to_owned()));
    }
    if strutil::starts_with_str(t, "index:") {
        proof {
            reveal_strlit("index:");
        }
        let rb = strutil::trim_str_bounds(t.substring_char(6, tn));
        let rest: &str = t.substring_char(6 + rb.0, 6 + rb.1);
        assert(rest@ == strutil::trim_chars(tg.skip(6))) by {
            assert(tg.skip(6).subrange(rb.0 as int, rb.1 as int) =~= tg.subrange(
                6 + rb.0,
                6 + rb.1,
            ));
        }
        match strutil::parse_usize(rest) {
            Some(i) => {
                return Ok(TargetSelector::Index(i));
            },
            None => {
                let mut msg = "invalid index: ".to_owned();
                msg.append(rest);
                return Err(SelectorError::InvalidSelector(msg));
            },
        }
    }
    if strutil::starts_with_str(t, "serial:") || strutil::starts_with_str(t, "halfkay:") {
        return Ok(TargetSelector::Id(t.to_owned()));
    }
    let mut all_digits = true;
    let mut i: usize = 0;
    while i < tn
        invariant
            0 <= i <= tn,
            tn == t@.len(),
            all_digits == all_digit_chars(t@.take(i as int)),
        decreases tn - i,
    {
        let c = t.get_char(i);
        proof {
            assert(t@.take(i + 1).drop_last() =~= t@.take(i as int));
            assert(t@.take(i + 1).last() == t@[i as int]);
            if all_digits && !(c >= '0' && c <= '9') {
                assert(!all_digit_chars(t@.take(i + 1))) by {
                    assert(!strutil::is_digit_char(t@.take(i + 1)[i as int]));
                }
            }
            if !all_digits {
                let ghost w = choose|k: int|
                    0 <= k < i && !strutil::is_digit_char(#[trigger] t@.take(i as int)[k]);
                assert(!strutil::is_digit_char(t@.take(i + 1)[w]));
            }
            if all_digits && (c >= '0' && c <= '9') {
                assert(all_digit_chars(t@.take(i + 1))) by {
                    assert(forall|k: int|
                        0 <= k < i ==> t@.take(i + 1)[k] == #[trigger] t@.take(i as int)[k]);
                }
            }
        }
        if !(c >= '0' && c <= '9') {
            all_digits = false;
        }
        i = i + 1;
    }
    assert(t@.take(tn as int) =~= t@);
    if all_digits {
        match strutil::parse_usize(t) {
            Some(i) => {
                return Ok(TargetSelector::Index(i));
            },
            None => {
                let mut msg = "invalid index: ".to_owned();
                msg.append(t);
                return Err(SelectorError::InvalidSelector(msg));
            },
        }
    }
    let mut id = "serial:".to_owned();
    id.append(t);
    Ok(TargetSelector::Id(id))
}

/// The indices among the first `n` targets whose identifier is `id`.
pub open spec fn matching_upto(id: Seq<char>, ts: Seq<Target>, n: int) -> Seq<usize>
    decreases n,
{
    if n <= 0 {
        Seq::empty()
    } else {
        let pre = matching_upto(id, ts, n - 1);
        if ts[n - 1].spec_id() == id {
            pre.push((n - 1) as usize)
        } else {
            pre
        }
    }
}

/// The indices of the targets whose identifier is `id`.
pub open spec fn matching_indices(id: Seq<char>, ts: Seq<Target>) -> Seq<usize> {
    matching_upto(id, ts, ts.len() as int)
}

/// What a resolved selector must be.
pub open spec fn resolve_spec(sel: TargetSelector, ts: Seq<Target>) -> Result<
    Seq<usize>,
    SelectorError,
> {
    match sel {
        TargetSelector::Index(i) => {
            if i < ts.len() {
                Ok(seq![i])
            } else {
                Err(SelectorError::IndexOutOfRange { index: i, len: ts.len() as usize })
            }
        },
        TargetSelector::Id(id) => Ok(matching_indices(id@, ts)),
    }
}

/// Does a resolution result present what `resolve_spec` asks?
pub open spec fn resolve_matches(
    r: Result<Vec<usize>, SelectorError>,
    s: Result<Seq<usize>, SelectorError>,
) -> bool {
    match s {
        Ok(ids) => r matches Ok(v) && v@ == ids,
        Err(SelectorError::IndexOutOfRange { index, len }) => r matches Err(
            SelectorError::IndexOutOfRange { index: i2, len: l2 },
        ) && i2 == index && l2 == len,
        Err(_) => false,
    }
}

/// Resolves a selector to the list indices it names: the single index
/// itself, or every target whose identifier matches literally.
pub fn resolve(selector: &TargetSelector, targets: &Vec<Target>) -> (r: Result<
    Vec<usize>,
    SelectorError,
>)
    requires
        targets@.len() <= usize::MAX,
    ensures
        resolve_matches(r, resolve_spec(*selector, targets@)),
{
    match selector {
        TargetSelector::Index(i) => {
            if *i >= targets.len() {
                return Err(SelectorError::IndexOutOfRange { index: *i, len: targets.len() });
            }
            let mut v: Vec<usize> = Vec::new();
            v.push(*i);
            assert(v@ =~= seq![*i]);
            Ok(v)
        },
        TargetSelector::Id(id) => {
            let n = targets.len();
            let mut v: Vec<usize> = Vec::new();
            let mut i: usize = 0;
            while i < n
                invariant
                    0 <= i <= n,
                    n == targets@.len(),
                    v@ =~= matching_upto(id@, targets@, i as int),
                decreases n - i,
            {
                let tid = targets[i].id();
                if tid == *id {
                    assert(targets@[i as int].spec_id() == id@);
                    v.push(i);
                } else {
                    assert(targets@[i as int].spec_id() != id@);
                }
                assert(v@ =~= matching_upto(id@, targets@, i + 1));
                i = i + 1;
            }
            Ok(v)
        },
    }
}

/// The selector rendered back to text, for error messages.
pub open spec fn spec_selector_string(s: TargetSelector) -> Seq<char> {
    match s {
        TargetSelector::Index(i) => "index:"@ + strutil::u64_chars(i as u64),
        TargetSelector::Id(id) => id@,
    }
}

/// Renders the selector for error messages.
fn selector_string(s: &TargetSelector) -> (r: String)
    ensures
        r@ == spec_selector_string(*s),
{
    match s {
        TargetSelector::Index(i) => {
            let mut out = "index:".to_owned();
            out.append(strutil::usize_to_string(*i).as_str());
            out
        },
        TargetSelector::Id(id) => id.clone(),
    }
}

/// What resolving to exactly one target must be.
pub enum ResolveOne {
    One(int),
    OutOfRange { index: int, len: int },
    NoMatch,
    MultipleMatches,
}

/// What resolving to exactly one target must be.
pub open spec fn resolve_one_spec(sel: TargetSelector, ts: Seq<Target>) -> ResolveOne {
    match resolve_spec(sel, ts) {
        Err(SelectorError::IndexOutOfRange { index, len }) => ResolveOne::OutOfRange {
            index: index as int,
            len: len as int,
        },
        Err(_) => ResolveOne::NoMatch,
        Ok(ids) => {
            if ids.len() == 0 {
                ResolveOne::NoMatch
            } else if ids.len() > 1 {
                ResolveOne::MultipleMatches
            } else {
                ResolveOne::One(ids[0] as int)
            }
        },
    }
}

/// Does a single-target resolution present what `resolve_one_spec`
/// asks?  The error carries the selector rendered as text.
pub open spec fn resolve_one_matches(
    r: Result<usize, SelectorError>,
    s: ResolveOne,
    sel: TargetSelector,
) -> bool {
    match s {
        ResolveOne::One(i) => r matches Ok(ri) && ri == i,
        ResolveOne::OutOfRange { index, len } => r matches Err(
            SelectorError::IndexOutOfRange { index: i2, len: l2 },
        ) && i2 == index && l2 == len,
        ResolveOne::NoMatch => r matches Err(SelectorError::NoMatch { selector }) && selector@
            == spec_selector_string(sel),
        ResolveOne::MultipleMatches => r matches Err(SelectorError::MultipleMatches { selector })
            && selector@ == spec_selector_string(sel),
    }
}

/// Resolves a selector that must name exactly one target: no match and
/// more than one match are errors.
pub fn resolve_one(selector: &TargetSelector, targets: &Vec<Target>) -> (r: Result<
    usize,
    SelectorError,
>)
    requires
        targets@.len() <= usize::MAX,
    ensures
        resolve_one_matches(r, resolve_one_spec(*selector, targets@), *selector),
{
    let matches = match resolve(selector, targets) {
        Ok(v) => v,
        Err(e) => {
            return Err(e);
        },
    };
    if matches.len() == 0 {
        return Err(SelectorError::NoMatch { selector: selector_string(selector) });
    }
    if matches.len() > 1 {
        return Err(SelectorError::MultipleMatches { selector: selector_string(selector) });
    }
    Ok(matches[0])
}

/// Selector round trip: a discovery target's identifier, parsed and
/// resolved, names exactly that target, provided its identifier is
/// unique in the list and its path or port name neither starts with
/// whitespace nor ends with it.
pub proof fn lemma_selector_round_trip(t: Target, ts: Seq<Target>, i: int)
    requires
        0 <= i < ts.len() <= usize::MAX,
        ts[i] == t,
        forall|j: int| 0 <= j < ts.len() && j != i ==> (#[trigger] ts[j]).spec_id() != t.spec_id(),
        t.spec_key().len() > 0 ==> !strutil::is_space_char(t.spec_key()[0]),
        t.spec_key().len() > 0 ==> !strutil::is_space_char(t.spec_key().last()),
    ensures
        classify_selector(t.spec_id()) == SelClass::Id(t.spec_id()),
        matching_indices(t.spec_id(), ts) == seq![i as usize],
{
    let id = t.spec_id();
    proof_selector_id_form(t);
    lemma_matching_unique(id, ts, i, ts.len() as int);
    assert(matching_indices(id, ts) =~= seq![i as usize]);
}

/// A target identifier is classified as an identifier token.
proof fn proof_selector_id_form(t: Target)
    requires
        t.spec_key().len() > 0 ==> !strutil::is_space_char(t.spec_key()[0]),
        t.spec_key().len() > 0 ==> !strutil::is_space_char(t.spec_key().last()),
    ensures
        classify_selector(t.spec_id()) == SelClass::Id(t.spec_id()),
{
    reveal_strlit("halfkay:");
    reveal_strlit("serial:");
    reveal_strlit("index:");
    let id = t.spec_id();
    assert(id.len() > 0);
    match t {
        Target::HalfKay(ht) => {
            assert(id[0] == 'h');
            assert(id.last() == if ht.path@.len() > 0 {
                ht.path@.last()
            } else {
                ':'
            });
            strutil::lemma_trim_chars_noop(id);
            assert(!strutil::has_prefix(id, "index:"@)) by {
                if id.len() >= 6 {
                    assert(id.subrange(0, 6)[0] == id[0]);
                }
            }
            assert(!strutil::has_prefix(id, "serial:"@)) by {
                if id.len() >= 7 {
                    assert(id.subrange(0, 7)[0] == id[0]);
                }
            }
            assert(strutil::has_prefix(id, "halfkay:"@)) by {
                assert(id.subrange(0, 8) =~= "halfkay:"@);
            }
        },
        Target::Serial(st) => {
            assert(id[0] == 's');
            assert(id.last() == if st.port_name@.len() > 0 {
                st.port_name@.last()
            } else {
                ':'
            });
            strutil::lemma_trim_chars_noop(id);
            assert(!strutil::has_prefix(id, "index:"@)) by {
                if id.len() >= 6 {
                    assert(id.subrange(0, 6)[0] == id[0]);
                }
            }
            assert(strutil::has_prefix(id, "serial:"@)) by {
                assert(id.subrange(0, 7) =~= "serial:"@);
            }
        },
    }
}

/// Every matching index lies within the list.
pub proof fn lemma_matching_in_range(id: Seq<char>, ts: Seq<Target>, n: int)
    requires
        n <= ts.len(),
    ensures
        forall|i: int|
            0 <= i < matching_upto(id, ts, n).len() ==> 0 <= (#[trigger] matching_upto(
                id,
                ts,
                n,
            )[i]) < n,
    decreases n,
{
    if n > 0 {
        lemma_matching_in_range(id, ts, n - 1);
        let pre = matching_upto(id, ts, n - 1);
        if ts[n - 1].spec_id() == id {
            assert(forall|i: int|
                0 <= i < pre.len() ==> #[trigger] matching_upto(id, ts, n)[i] == pre[i]);
        }
    }
}

/// When exactly one index matches, the match list is that index alone.
proof fn lemma_matching_unique(id: Seq<char>, ts: Seq<Target>, i: int, n: int)
    requires
        0 <= i < ts.len() <= usize::MAX,
        n <= ts.len(),
        ts[i].spec_id() == id,
        forall|j: int| 0 <= j < ts.len() && j != i ==> (#[trigger] ts[j]).spec_id() != id,
    ensures
        matching_upto(id, ts, n) == if i < n {
            seq![i as usize]
        } else {
            Seq::<usize>::empty()
        },
    decreases n,
{
    if n > 0 {
        lemma_matching_unique(id, ts, i, n - 1);
    }
}


impl SelectorError {
    /// The error as text.
    pub open spec fn spec_message(&self) -> Seq<char> {
        match self {
            SelectorError::InvalidSelector(m) => "invalid selector: "@ + m@,
            SelectorError::IndexOutOfRange { index, len } => "index out of range: "@
                + strutil::u64_chars(*index as u64) + " (have "@ + strutil::u64_chars(*len as u64)
                + ")"@,
            SelectorError::NoMatch { selector } => "no target matched: "@ + selector@,
            SelectorError::MultipleMatches { selector } => "multiple targets matched: "@
                + selector@,
        }
    }

    /// Renders the error as text.
    pub fn message(&self) -> (r: String)
        ensures
            r@ == self.spec_message(),
    {
        match self {
            SelectorError::InvalidSelector(m) => {
                let mut s = "invalid selector: ".to_owned();
                s.append(m.as_str());
                s
            },
            SelectorError::IndexOutOfRange { index, len } => {
                let mut s = "index out of range: ".to_owned();
                s.append(strutil::usize_to_string(*index).as_str());
                s.append(" (have ");
                s.append(strutil::usize_to_string(*len).as_str());
                s.append(")");
                s
            },
            SelectorError::NoMatch { selector } => {
                let mut s = "no target matched: ".to_owned();
                s.append(selector.as_str());
                s
            },
            SelectorError::MultipleMatches { selector } => {
                let mut s = "multiple targets matched: ".to_owned();
                s.append(selector.as_str());
                s
            },
        }
    }
}


} // verus!
