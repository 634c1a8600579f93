//! Parameterised query scripts: a script's text plus its metadata, and the
//! substitution of named replacements and parameter values into the text.

use vstd::prelude::*;

verus! {

/// How many extra rounds nested replacements are resolved for, at most.
pub const NESTING_LIMIT: u64 = 30;

/// A saved set of parameter values for one script.
#[derive(Clone, Debug, Default)]
pub struct Preset {
    pub key: String,
    pub name: String,
    pub script_key: String,
    pub params: Vec<(String, String)>,
}

/// The kind of value a parameter takes.
#[derive(Clone, Copy, Debug, Default, PartialEq, Eq, Structural)]
pub enum ParamType {
    #[default]
    Bool,
    Integer,
    Float,
}

/// A parameter a script accepts.
#[derive(Clone, Debug, Default)]
pub struct Param {
    pub key: String,
    pub name: String,
    pub param_type: ParamType,
    pub default_value: String,
}

/// What a script is and which named replacements its text uses.
#[derive(Clone, Debug, Default)]
pub struct Metadata {
    pub key: String,
    pub name: String,
    pub description: String,
    pub parameters: Vec<Param>,
    pub tables_affected: Vec<String>,
    pub replacements: Vec<(String, String)>,
}

/// A query script: its metadata and its text.
#[derive(Clone, Debug, Default)]
pub struct SQLScript {
    pub metadata: Metadata,
    pub queries: String,
}

/// `s` with every match of `from` replaced by `to`, matches taken from the left
/// without overlap; an empty `from` matches before each character and at the end.
pub open spec fn replaced(s: Seq<char>, from: Seq<char>, to: Seq<char>) -> Seq<char>
    decreases s.len(),
{
    if from.len() == 0 {
        if s.len() == 0 {
            to
        } else {
            to + seq![s[0]] + replaced(s.drop_first(), from, to)
        }
    } else if s.len() < from.len() {
        s
    } else if s.subrange(0, from.len() as int) == from {
        to + replaced(s.subrange(from.len() as int, s.len() as int), from, to)
    } else {
        seq![s[0]] + replaced(s.drop_first(), from, to)
    }
}

/// Relies on `str::replace`: every match of `from` in `s` replaced by `to`.
#[verifier::external_body]
fn replace_text(s: &str, from: &str, to: &str) -> (r: String)
    ensures
        r@ == replaced(s@, from@, to@),
{
    s.replace(from, to)
}

/// `k` occurs somewhere in `s`.
pub open spec fn occurs(s: Seq<char>, k: Seq<char>) -> bool {
    exists|i: int| 0 <= i && i + k.len() <= s.len() && #[trigger] s.subrange(i, i + k.len()) == k
}

/// Relies on `str::contains`: whether `k` matches a part of `s`.
#[verifier::external_body]
fn contains_text(s: &str, k: &str) -> (r: bool)
    ensures
        r == occurs(s@, k@),
{
    s.contains(k)
}

pub open spec fn pairs_view(v: Seq<(String, String)>) -> Seq<(Seq<char>, Seq<char>)> {
    Seq::new(v.len(), |i: int| (v[i].0@, v[i].1@))
}

/// No two pairs share a key, as in a map from keys to values.
pub open spec fn keys_unique(pairs: Seq<(Seq<char>, Seq<char>)>) -> bool {
    forall|i: int, j: int| 0 <= i < j < pairs.len() ==> #[trigger] pairs[i].0 != #[trigger] pairs[j].0
}

/// Sets `key` to `value` in a list of pairs used as a map: the pair with that
/// key gets the new value, or a pair is added at the end if there is none.
pub fn insert_pair(pairs: &mut Vec<(String, String)>, key: String, value: String)
    ensures
        keys_unique(pairs_view(old(pairs)@)) ==> keys_unique(pairs_view(final(pairs)@)),
        (exists|j: int| 0 <= j < old(pairs)@.len() && #[trigger] old(pairs)@[j].0@ == key@) ==> exists|j: int|
            0 <= j < old(pairs)@.len() && #[trigger] old(pairs)@[j].0@ == key@
                && (forall|k: int| 0 <= k < j ==> #[trigger] old(pairs)@[k].0@ != key@)
                && pairs_view(final(pairs)@) == pairs_view(old(pairs)@).update(j, (key@, value@)),
        !(exists|j: int| 0 <= j < old(pairs)@.len() && #[trigger] old(pairs)@[j].0@ == key@) ==> pairs_view(
            final(pairs)@,
        ) == pairs_view(old(pairs)@).push((key@, value@)),
{
    let ghost start = pairs_view(pairs@);
    let ghost orig = pairs@;
    let mut i: usize = 0;
    while i < pairs.len()
        invariant
            i <= pairs.len(),
            pairs@ == orig,
            orig == old(pairs)@,
            start == pairs_view(pairs@),
            forall|k: int| 0 <= k < i ==> #[trigger] pairs@[k].0@ != key@,
        decreases pairs.len() - i,
    {
        if pairs[i].0 == key {
            pairs[i] = (key, value);
            proof {
                assert(orig[i as int].0@ == key@);
                assert(pairs_view(pairs@) =~= start.update(i as int, (key@, value@)));
                assert forall|a: int, b: int| 0 <= a < b < pairs@.len() && keys_unique(start) implies
                    #[trigger] pairs_view(pairs@)[a].0 != #[trigger] pairs_view(pairs@)[b].0 by {
                    assert(start[a].0 != start[b].0);
                    assert(start[a].0 == orig[a].0@);
                    assert(start[b].0 == orig[b].0@);
                }
            }
            return;
        }
        i = i + 1;
    }
    pairs.push((key, value));
    proof {
        assert(pairs_view(pairs@) =~= start.push((key@, value@)));
        assert forall|a: int, b: int| 0 <= a < b < pairs@.len() && keys_unique(start) implies
            #[trigger] pairs_view(pairs@)[a].0 != #[trigger] pairs_view(pairs@)[b].0 by {
            if b < start.len() {
                assert(start[a].0 != start[b].0);
            } else {
                assert(pairs_view(pairs@)[a].0 == start[a].0);
                assert(start[a].0 == old(pairs)@[a].0@);
            }
        }
    }
}

/// The value `v` of the replacement named `own` after substituting, in order,
/// the first `n` other replacements of `snap` that occur in it.
pub open spec fn resolve_value(v: Seq<char>, own: Seq<char>, snap: Seq<(Seq<char>, Seq<char>)>, n: nat) -> Seq<char>
    decreases n,
{
    if n == 0 {
        v
    } else {
        let p = resolve_value(v, own, snap, (n - 1) as nat);
        let (k, w) = snap[n - 1];
        if k != own && occurs(p, k) {
            replaced(p, k, w)
        } else {
            p
        }
    }
}

/// Whether any substitution took place while resolving as above.
pub open spec fn resolve_fires(v: Seq<char>, own: Seq<char>, snap: Seq<(Seq<char>, Seq<char>)>, n: nat) -> bool
    decreases n,
{
    if n == 0 {
        false
    } else {
        let p = resolve_value(v, own, snap, (n - 1) as nat);
        let (k, w) = snap[n - 1];
        resolve_fires(v, own, snap, (n - 1) as nat) || (k != own && occurs(p, k))
    }
}

/// One round: every replacement's value resolved against all others as they were at its start.
pub open spec fn round(reps: Seq<(Seq<char>, Seq<char>)>) -> Seq<(Seq<char>, Seq<char>)> {
    Seq::new(reps.len(), |i: int| (reps[i].0, resolve_value(reps[i].1, reps[i].0, reps, reps.len())))
}

pub open spec fn round_fires(reps: Seq<(Seq<char>, Seq<char>)>) -> bool {
    exists|i: int| 0 <= i < reps.len() && #[trigger] resolve_fires(reps[i].1, reps[i].0, reps, reps.len())
}

/// Rounds repeated from round number `cycle` until one changes nothing or the limit is reached.
pub open spec fn resolved(reps: Seq<(Seq<char>, Seq<char>)>, cycle: nat) -> Seq<(Seq<char>, Seq<char>)>
    decreases NESTING_LIMIT - cycle,
{
    let next = round(reps);
    if !round_fires(reps) || cycle >= NESTING_LIMIT {
        next
    } else {
        resolved(next, cycle + 1)
    }
}

/// `s` with the first `n` pairs of `pairs` substituted, in order.
pub open spec fn substitute_all(s: Seq<char>, pairs: Seq<(Seq<char>, Seq<char>)>, n: nat) -> Seq<char>
    decreases n,
{
    if n == 0 {
        s
    } else {
        let p = substitute_all(s, pairs, (n - 1) as nat);
        replaced(p, pairs[n - 1].0, pairs[n - 1].1)
    }
}

/// The script text with Windows line ends made plain, the resolved
/// replacements substituted, then the parameter values.
pub open spec fn prepared(
    queries: Seq<char>,
    reps: Seq<(Seq<char>, Seq<char>)>,
    params: Seq<(Seq<char>, Seq<char>)>,
) -> Seq<char> {
    let text = replaced(queries, "\r\n"@, "\n"@);
    let res = resolved(reps, 0);
    substitute_all(substitute_all(text, res, res.len()), params, params.len())
}

/// Substitutes every pair of `pairs` into `s`, in order.
fn substitute_pairs(s: String, pairs: &Vec<(String, String)>) -> (r: String)
    ensures
        r@ == substitute_all(s@, pairs_view(pairs@), pairs@.len()),
{
    let mut out = s;
    let mut i: usize = 0;
    while i < pairs.len()
        invariant
            i <= pairs.len(),
            out@ == substitute_all(s@, pairs_view(pairs@), i as nat),
        decreases pairs.len() - i,
    {
        out = replace_text(out.as_str(), pairs[i].0.as_str(), pairs[i].1.as_str());
        i = i + 1;
    }
    out
}

/// One round of resolving nested replacements; also says whether anything changed.
fn resolve_round(reps: &Vec<(String, String)>) -> (r: (Vec<(String, String)>, bool))
    ensures
        pairs_view(r.0@) == round(pairs_view(reps@)),
        r.1 == round_fires(pairs_view(reps@)),
{
    let ghost snap = pairs_view(reps@);
    let mut next: Vec<(String, String)> = Vec::new();
    let mut fired = false;
    let mut i: usize = 0;
    while i < reps.len()
        invariant
            i <= reps.len(),
            snap == pairs_view(reps@),
            next@.len() == i,
            forall|j: int| 0 <= j < i ==> #[trigger] pairs_view(next@)[j] == round(snap)[j],
            fired <==> exists|j: int| 0 <= j < i && #[trigger] resolve_fires(snap[j].1, snap[j].0, snap, snap.len()),
        decreases reps.len() - i,
    {
        let own = &reps[i].0;
        let mut value = reps[i].1.clone();
        let mut fires = false;
        let mut j: usize = 0;
        while j < reps.len()
            invariant
                i < reps.len(),
                j <= reps.len(),
                snap == pairs_view(reps@),
                own@ == snap[i as int].0,
                value@ == resolve_value(snap[i as int].1, snap[i as int].0, snap, j as nat),
                fires == resolve_fires(snap[i as int].1, snap[i as int].0, snap, j as nat),
            decreases reps.len() - j,
        {
            let key = &reps[j].0;
            if *key != *own && contains_text(value.as_str(), key.as_str()) {
                value = replace_text(value.as_str(), key.as_str(), reps[j].1.as_str());
                fires = true;
            }
            j = j + 1;
        }
        let ghost before = next@;
        next.push((own.clone(), value));
        proof {
            assert forall|k: int| 0 <= k <= i implies #[trigger] pairs_view(next@)[k] == round(snap)[k] by {
                if k < i {
                    assert(pairs_view(next@)[k] == pairs_view(before)[k]);
                }
            }
            if fires {
                assert(resolve_fires(snap[i as int].1, snap[i as int].0, snap, snap.len()));
            }
        }
        fired = fired || fires;
        i = i + 1;
    }
    proof {
        assert(pairs_view(next@) =~= round(snap));
    }
    (next, fired)
}

impl SQLScript {
    /// The script text ready to run: line ends normalised, the metadata's
    /// replacements (resolved against each other) and then `param_values` substituted.
    pub fn prepare(&self, param_values: Vec<(String, String)>) -> (r: String)
        ensures
            r@ == prepared(
                self.queries@,
                pairs_view(self.metadata.replacements@),
                pairs_view(param_values@),
            ),
    {
        let script = replace_text(self.queries.as_str(), "\r\n", "\n");
        let ghost orig = pairs_view(self.metadata.replacements@);
        let mut current: Vec<(String, String)> = Vec::new();
        let mut k: usize = 0;
        while k < self.metadata.replacements.len()
            invariant
                k <= self.metadata.replacements.len(),
                orig == pairs_view(self.metadata.replacements@),
                current@.len() == k,
                forall|j: int| 0 <= j < k ==> #[trigger] pairs_view(current@)[j] == orig[j],
            decreases self.metadata.replacements.len() - k,
        {
            let ghost before = current@;
            current.push((self.metadata.replacements[k].0.clone(), self.metadata.replacements[k].1.clone()));
            proof {
                assert forall|j: int| 0 <= j <= k implies #[trigger] pairs_view(current@)[j] == orig[j] by {
                    if j < k {
                        assert(pairs_view(current@)[j] == pairs_view(before)[j]);
                    }
                }
            }
            k = k + 1;
        }
        assert(pairs_view(current@) =~= orig);
        let mut cycle: u64 = 0;
        loop
            invariant_except_break
                resolved(pairs_view(current@), cycle as nat) == resolved(orig, 0),
            invariant
                cycle <= NESTING_LIMIT,
            ensures
                pairs_view(current@) == resolved(orig, 0),
            decreases NESTING_LIMIT - cycle,
        {
            let (next, fired) = resolve_round(&current);
            current = next;
            if !fired || cycle == NESTING_LIMIT {
                break;
            }
            cycle = cycle + 1;
        }
        let text = substitute_pairs(script, &current);
        substitute_pairs(text, &param_values)
    }
}

} // verus!
