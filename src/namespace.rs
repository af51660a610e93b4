use vstd::prelude::*;
use vstd::string::*;

use crate::text::{chars_of, has_prefix, starts_with, suffix_from};

verus! {

/// The separator between a resolver id and the id that its backend uses.
pub open spec fn separator() -> char {
    ':'
}

/// The text that opens every id in the namespace of resolver `rid`.
pub open spec fn namespace_of(rid: Seq<char>) -> Seq<char> {
    rid.push(separator())
}

/// `id` lies in the namespace of resolver `rid`.
pub open spec fn in_namespace(id: Seq<char>, rid: Seq<char>) -> bool {
    has_prefix(id, namespace_of(rid))
}

/// The id that resolver `rid` gives to the backend's own id `native`.
pub open spec fn qualified(rid: Seq<char>, native: Seq<char>) -> Seq<char> {
    namespace_of(rid) + native
}

/// `id`, placed in the namespace of `rid` unless it already lies there.
pub open spec fn tagged(rid: Seq<char>, id: Seq<char>) -> Seq<char> {
    if in_namespace(id, rid) {
        id
    } else {
        qualified(rid, id)
    }
}

/// A resolver id can open a namespace: it holds no separator.
pub open spec fn valid_resolver_id(rid: Seq<char>) -> bool {
    forall|i: int| 0 <= i < rid.len() ==> rid[i] != separator()
}

/// Builds `<rid>:<native>`.
pub fn qualify(rid: &str, native: &str) -> (r: String)
    ensures
        r@ == qualified(rid@, native@),
{
    let mut r = rid.to_owned();
    proof {
        reveal_strlit(":");
    }
    r.append(":");
    r.append(native);
    assert(r@ =~= qualified(rid@, native@));
    r
}

/// Tells whether `id` lies in the namespace of resolver `rid`.
pub fn belongs_to(id: &str, rid: &str) -> (r: bool)
    ensures
        r == in_namespace(id@, rid@),
{
    let ns = qualify(rid, "");
    proof {
        reveal_strlit("");
        assert(ns@ =~= namespace_of(rid@));
    }
    starts_with(id, ns.as_str())
}

/// Places `id` in the namespace of `rid`, unless it lies there already.
pub fn tag(rid: &str, id: &str) -> (r: String)
    ensures
        r@ == tagged(rid@, id@),
{
    if belongs_to(id, rid) {
        id.to_owned()
    } else {
        qualify(rid, id)
    }
}

/// The backend's own id inside `id`, when `id` lies in the namespace of `rid`.
pub fn strip_namespace(id: &str, rid: &str) -> (r: Option<String>)
    ensures
        r is Some <==> in_namespace(id@, rid@),
        r matches Some(n) ==> qualified(rid@, n@) == id@,
{
    if belongs_to(id, rid) {
        let k = chars_of(rid).len();
        let total = chars_of(id).len();
        assert(k < total);
        let start = k + 1;
        let n = suffix_from(id, start);
        proof {
            let k = namespace_of(rid@).len() as int;
            assert(id@ =~= id@.subrange(0, k) + id@.subrange(k, id@.len() as int));
        }
        Some(n)
    } else {
        None
    }
}

/// Two resolver ids whose namespaces share an id are the same.
pub proof fn lemma_one_namespace(id: Seq<char>, r1: Seq<char>, r2: Seq<char>)
    requires
        valid_resolver_id(r1),
        valid_resolver_id(r2),
        in_namespace(id, r1),
        in_namespace(id, r2),
    ensures
        r1 == r2,
{
    let n1 = r1.len() as int;
    let n2 = r2.len() as int;
    if n1 < n2 {
        assert(id.subrange(0, n1 + 1)[n1] == separator());
        assert(id.subrange(0, n2 + 1)[n1] == r2[n1]);
    } else if n2 < n1 {
        assert(id.subrange(0, n2 + 1)[n2] == separator());
        assert(id.subrange(0, n1 + 1)[n2] == r1[n2]);
    } else {
        assert(r1 =~= id.subrange(0, n1 + 1).drop_last());
        assert(r2 =~= id.subrange(0, n2 + 1).drop_last());
    }
}

/// Namespace integrity: an id tagged by a resolver lies in that resolver's
/// namespace and in no other, so two distinct resolvers never give the same id.
pub proof fn lemma_namespace_integrity(r1: Seq<char>, r2: Seq<char>, a: Seq<char>, b: Seq<char>)
    requires
        valid_resolver_id(r1),
        valid_resolver_id(r2),
        r1 != r2,
    ensures
        in_namespace(tagged(r1, a), r1),
        !in_namespace(tagged(r1, a), r2),
        tagged(r1, a) != tagged(r2, b),
{
    lemma_tagged_in_namespace(r1, a);
    lemma_tagged_in_namespace(r2, b);
    if in_namespace(tagged(r1, a), r2) {
        lemma_one_namespace(tagged(r1, a), r1, r2);
    }
}

/// A qualified or tagged id lies in its resolver's namespace.
pub proof fn lemma_tagged_in_namespace(rid: Seq<char>, id: Seq<char>)
    ensures
        in_namespace(qualified(rid, id), rid),
        in_namespace(tagged(rid, id), rid),
{
    let q = qualified(rid, id);
    assert(q.subrange(0, namespace_of(rid).len() as int) =~= namespace_of(rid));
}

} // verus!
