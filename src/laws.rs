use vstd::prelude::*;
use crate::error::{DecodeErrorView, Field};
use crate::model::{ForwardView, MsgView};
use crate::resolve::{
    first_forward_source, lemma_resolve_msgs_err, resolve_msgs, resolve_spec, sender_name_of,
};
use crate::marker::{
    attr_close, attr_marker, attr_name, contains, file_name_of, json_close, json_marker, json_name,
    lemma_first_from_at, lemma_first_from_none, lemma_last_upto_at, lemma_last_upto_none, occurs_at,
};

verus! {

/// Whenever `m_fileName="x"` is the first attribute-style marker of a string
/// and `x` holds no `"`, the extracted name is `x`, whatever follows.
pub proof fn law_attribute_marker_extracts(a: Seq<char>, x: Seq<char>, b: Seq<char>)
    requires
        forall|j: int|
            0 <= j < a.len() ==> !occurs_at(
                a + attr_marker() + x + attr_close() + b,
                attr_marker(),
                j,
            ),
        forall|k: int| 0 <= k < x.len() ==> x[k] != '"',
    ensures
        file_name_of(a + attr_marker() + x + attr_close() + b) == Some(x),
{
    let s = a + attr_marker() + x + attr_close() + b;
    let m = attr_marker();
    let start: int = (a.len() + m.len()) as int;
    assert(s.subrange(a.len() as int, start as int) =~= m);
    lemma_first_from_at(s, m, 0, a.len() as int);
    let close: int = start + x.len();
    assert(s.subrange(close as int, close + 1) =~= attr_close());
    assert forall|j: int| start <= j < close implies !occurs_at(s, attr_close(), j) by {
        assert(s[j] == x[j - start]);
        assert(s.subrange(j, j + 1)[0] == s[j]);
    }
    lemma_first_from_at(s, attr_close(), start as int, close as int);
    assert(s.subrange(start as int, close as int) =~= x);
}

/// Whenever a string holds no attribute-style marker, `\"filename\":\"x\"`
/// is its last escaped-field marker, and `x` holds no `\"`, the extracted
/// name is `x`, whatever follows.
pub proof fn law_escaped_marker_extracts(a: Seq<char>, x: Seq<char>, b: Seq<char>)
    requires
        !contains(a + json_marker() + x + json_close() + b, attr_marker()),
        forall|j: int|
            j > a.len() ==> !occurs_at(a + json_marker() + x + json_close() + b, json_marker(), j),
        forall|k: int| 0 <= k < x.len() ==> !occurs_at(x, json_close(), k),
    ensures
        file_name_of(a + json_marker() + x + json_close() + b) == Some(x),
{
    let s = a + json_marker() + x + json_close() + b;
    let m = json_marker();
    let c = json_close();
    let start: int = (a.len() + m.len()) as int;
    let close: int = start + x.len();
    assert(s.subrange(a.len() as int, start as int) =~= m);
    lemma_last_upto_at(s, m, s.len() as int, a.len() as int);
    assert(s.subrange(close as int, close + 2) =~= c);
    assert forall|j: int| start <= j < close implies !occurs_at(s, c, j) by {
        if j + 2 <= close {
            assert(!occurs_at(x, c, j - start));
            assert(s.subrange(j, j + 2) =~= x.subrange(j - start, j - start + 2));
        } else {
            assert(s[j + 1] == c[0]);
            assert(s.subrange(j, j + 2)[1] == s[j + 1]);
        }
    }
    lemma_first_from_at(s, c, start as int, close as int);
    assert(s.subrange(start as int, close as int) =~= x);
}

/// A string that holds neither marker yields no name.
pub proof fn law_no_marker_no_name(s: Seq<char>)
    requires
        !contains(s, attr_marker()),
        !contains(s, json_marker()),
    ensures
        file_name_of(s) is None,
{
    lemma_first_from_none(s, json_marker(), 0);
    lemma_last_upto_none(s, json_marker(), s.len() as int);
}

/// Where the attribute-style marker is present, it alone decides the name,
/// even when an escaped-field marker is present too.
pub proof fn law_attribute_marker_first(s: Seq<char>)
    requires
        contains(s, attr_marker()),
    ensures
        file_name_of(s) == attr_name(s),
{
}

/// Where only the escaped-field marker is present, the escaped-field grammar
/// decides the name.
pub proof fn law_escaped_marker_fallback(s: Seq<char>)
    requires
        !contains(s, attr_marker()),
    ensures
        file_name_of(s) == json_name(s),
{
}

/// The leaf that a message with no forward-shaped element resolves to.
pub open spec fn leaf_of(m: MsgView) -> ForwardView {
    ForwardView::Message {
        sender_id: m.from_uin,
        time: m.msg_time,
        sender_name: sender_name_of(m)->0,
        elements: m.elems,
    }
}

/// A successful resolution of a prefix of messages extends the resolution
/// of every shorter prefix.
pub proof fn lemma_resolve_msgs_prefix(
    msgs: Seq<MsgView>,
    t: Map<Seq<char>, Seq<MsgView>>,
    depth: nat,
    n: int,
    k: int,
)
    requires
        0 <= k <= n,
        resolve_msgs(msgs, t, depth, n) is Ok,
    ensures
        resolve_msgs(msgs, t, depth, n)->Ok_0.len() == n,
        resolve_msgs(msgs, t, depth, k) == Ok::<Seq<ForwardView>, DecodeErrorView>(
            resolve_msgs(msgs, t, depth, n)->Ok_0.subrange(0, k),
        ),
    decreases n,
{
    if n > 0 {
        lemma_resolve_msgs_prefix(msgs, t, depth, n - 1, n - 1);
        let prev = resolve_msgs(msgs, t, depth, n - 1)->Ok_0;
        let v = resolve_msgs(msgs, t, depth, n)->Ok_0;
        assert(v.subrange(0, n - 1) =~= prev);
        if k < n {
            lemma_resolve_msgs_prefix(msgs, t, depth, n - 1, k);
            assert(v.subrange(0, k) =~= prev.subrange(0, k));
        } else {
            assert(v.subrange(0, k) =~= v);
        }
    } else {
        assert(resolve_msgs(msgs, t, depth, n)->Ok_0.subrange(0, k) =~= Seq::<ForwardView>::empty());
    }
}

proof fn lemma_plain_prefix(msgs: Seq<MsgView>, t: Map<Seq<char>, Seq<MsgView>>, depth: nat, n: int)
    requires
        0 <= n <= msgs.len(),
        forall|i: int|
            0 <= i < msgs.len() ==> first_forward_source(#[trigger] msgs[i].elems, 0) is None
                && sender_name_of(msgs[i]) is Some,
    ensures
        resolve_msgs(msgs, t, depth, n) == Ok::<Seq<ForwardView>, DecodeErrorView>(
            msgs.subrange(0, n).map_values(|m: MsgView| leaf_of(m)),
        ),
    decreases n,
{
    if n > 0 {
        lemma_plain_prefix(msgs, t, depth, n - 1);
        let m = msgs[n - 1];
        assert(first_forward_source(m.elems, 0) is None);
        assert(msgs.subrange(0, n).map_values(|m: MsgView| leaf_of(m)) =~= msgs.subrange(
            0,
            n - 1,
        ).map_values(|m: MsgView| leaf_of(m)).push(leaf_of(m)));
    } else {
        assert(msgs.subrange(0, n).map_values(|m: MsgView| leaf_of(m)) =~= Seq::<
            ForwardView,
        >::empty());
    }
}

/// A resolution that succeeds does not change when one more level of
/// nesting is allowed.
pub proof fn lemma_resolve_depth_stable(name: Seq<char>, t: Map<Seq<char>, Seq<MsgView>>, depth: nat)
    requires
        resolve_spec(name, t, depth) is Ok,
    ensures
        resolve_spec(name, t, depth + 1) == resolve_spec(name, t, depth),
    decreases depth, 0int, 0int,
{
    let msgs = t[name];
    lemma_resolve_msgs_depth_stable(msgs, t, (depth - 1) as nat, msgs.len() as int);
}

/// A successful resolution of a prefix of messages does not change when one
/// more level of nesting is allowed.
pub proof fn lemma_resolve_msgs_depth_stable(
    msgs: Seq<MsgView>,
    t: Map<Seq<char>, Seq<MsgView>>,
    depth: nat,
    n: int,
)
    requires
        resolve_msgs(msgs, t, depth, n) is Ok,
    ensures
        resolve_msgs(msgs, t, depth + 1, n) == resolve_msgs(msgs, t, depth, n),
    decreases depth, 1int, n,
{
    if n > 0 {
        lemma_resolve_msgs_depth_stable(msgs, t, depth, n - 1);
        let m = msgs[n - 1];
        if sender_name_of(m) is Some {
            if let Some(src) = first_forward_source(m.elems, 0) {
                if let Some(child) = file_name_of(src) {
                    lemma_resolve_depth_stable(child, t, depth);
                }
            }
        }
    }
}

/// Resolving a group none of whose messages holds a forward-shaped element
/// yields one leaf per message, in order, each with the message's elements
/// unchanged.
pub proof fn law_plain_group_yields_leaves(
    name: Seq<char>,
    t: Map<Seq<char>, Seq<MsgView>>,
    depth: nat,
)
    requires
        depth > 0,
        t.contains_key(name),
        forall|i: int|
            0 <= i < t[name].len() ==> first_forward_source(#[trigger] t[name][i].elems, 0) is None
                && sender_name_of(t[name][i]) is Some,
    ensures
        resolve_spec(name, t, depth) is Ok,
        resolve_spec(name, t, depth)->Ok_0.len() == t[name].len(),
        forall|i: int|
            0 <= i < t[name].len() ==> #[trigger] resolve_spec(name, t, depth)->Ok_0[i] == leaf_of(
                t[name][i],
            ),
{
    let msgs = t[name];
    lemma_plain_prefix(msgs, t, (depth - 1) as nat, msgs.len() as int);
    assert(msgs.subrange(0, msgs.len() as int) =~= msgs);
}

/// Where a message of a group embeds a reference to another item, and the
/// group resolves, that message becomes a forward node whose children are
/// the resolution of the referenced item, which is the same whether it is
/// resolved one level deeper or on its own.
pub proof fn law_nested_forward_resolves_reference(
    a: Seq<char>,
    b: Seq<char>,
    src: Seq<char>,
    t: Map<Seq<char>, Seq<MsgView>>,
    depth: nat,
    i: int,
)
    requires
        depth > 0,
        t.contains_key(a),
        0 <= i < t[a].len(),
        first_forward_source(t[a][i].elems, 0) == Some(src),
        file_name_of(src) == Some(b),
        resolve_spec(a, t, depth) is Ok,
    ensures
        resolve_spec(b, t, (depth - 1) as nat) is Ok,
        resolve_spec(b, t, depth) == resolve_spec(b, t, (depth - 1) as nat),
        resolve_spec(a, t, depth)->Ok_0[i] == (ForwardView::Forward {
            sender_id: t[a][i].from_uin,
            time: t[a][i].msg_time,
            sender_name: sender_name_of(t[a][i])->0,
            nodes: resolve_spec(b, t, (depth - 1) as nat)->Ok_0,
        }),
{
    let msgs = t[a];
    let d = (depth - 1) as nat;
    lemma_resolve_msgs_prefix(msgs, t, d, msgs.len() as int, i + 1);
    lemma_resolve_msgs_prefix(msgs, t, d, msgs.len() as int, i);
    let v = resolve_msgs(msgs, t, d, msgs.len() as int)->Ok_0;
    assert(v.subrange(0, i + 1)[i] == v[i]);
    lemma_resolve_depth_stable(b, t, d);
    assert(d + 1 == depth);
}

/// Resolving a name that the table does not hold fails with that name.
pub proof fn law_missing_reference(name: Seq<char>, t: Map<Seq<char>, Seq<MsgView>>, depth: nat)
    requires
        depth > 0,
        !t.contains_key(name),
    ensures
        resolve_spec(name, t, depth) == Err::<Seq<ForwardView>, DecodeErrorView>(
            DecodeErrorView::MissingReference(name),
        ),
{
}

/// A forward-shaped element whose markup holds no recoverable name makes the
/// whole resolution fail with an empty file name, rather than yield a leaf.
pub proof fn law_unrecoverable_marker_fails(
    name: Seq<char>,
    t: Map<Seq<char>, Seq<MsgView>>,
    depth: nat,
    i: int,
    src: Seq<char>,
)
    requires
        depth > 0,
        t.contains_key(name),
        0 <= i < t[name].len(),
        resolve_msgs(t[name], t, (depth - 1) as nat, i) is Ok,
        sender_name_of(t[name][i]) is Some,
        first_forward_source(t[name][i].elems, 0) == Some(src),
        file_name_of(src) is None,
    ensures
        resolve_spec(name, t, depth) == Err::<Seq<ForwardView>, DecodeErrorView>(
            DecodeErrorView::EmptyField(Field::FileName),
        ),
{
    let d = (depth - 1) as nat;
    lemma_resolve_msgs_err(t[name], t, d, i + 1, t[name].len() as int);
}

} // verus!
