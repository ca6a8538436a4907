use vstd::prelude::*;
use crate::error::{DecodeError, DecodeErrorView, Field};
use crate::marker::{contains, contains_exec, file_name_of, find_file_name};
use crate::model::{
    duplicate_elems, elems_view, forwards_view, lemma_forwards_view_push, Elem, ElemView,
    ForwardMessage, ForwardNode, ForwardView, MessageNode, Msg, MsgView,
};
use crate::table::ItemTable;
use crate::markup::{text_from_utf8, utf8_text};

verus! {

/// The message type of a group announcement, whose sender is shown by group card.
pub const GROUP_ANNOUNCE_TYPE: i32 = 82;

/// The service discriminant of rich markup that carries a forward.
pub const FORWARD_SERVICE_ID: i32 = 35;

/// How many levels of nested forwards the resolver follows.
pub const MAX_FORWARD_DEPTH: usize = 64;

/// The light-app prefix `{"app":"com.tencent.multimsg"` of forward content.
pub open spec fn multimsg_app_marker() -> Seq<char> {
    seq![
        '{', '"', 'a', 'p', 'p', '"', ':', '"', 'c', 'o', 'm', '.', 't', 'e', 'n', 'c', 'e', 'n',
        't', '.', 'm', 'u', 'l', 't', 'i', 'm', 's', 'g', '"',
    ]
}

/// The name shown for the sender of `m`: the group card of a group
/// announcement, the nickname otherwise; `None` when the card is not text.
pub open spec fn sender_name_of(m: MsgView) -> Option<Seq<char>> {
    if m.group_card is Some && m.msg_type == GROUP_ANNOUNCE_TYPE {
        utf8_text(m.group_card->0)
    } else {
        Some(m.from_nick)
    }
}

/// The markup text of `e` when `e` has the shape of a forward.
pub open spec fn forward_source(e: ElemView) -> Option<Seq<char>> {
    match e {
        ElemView::RichMsg { service_id, template } => if service_id == FORWARD_SERVICE_ID {
            Some(template)
        } else {
            None
        },
        ElemView::LightApp { content } => if contains(content, multimsg_app_marker()) {
            Some(content)
        } else {
            None
        },
        _ => None,
    }
}

/// The markup text of the first forward-shaped element of `es` from index `i` on.
pub open spec fn first_forward_source(es: Seq<ElemView>, i: int) -> Option<Seq<char>>
    decreases es.len() - i,
{
    if i < 0 || i >= es.len() {
        None
    } else {
        match forward_source(es[i]) {
            Some(x) => Some(x),
            None => first_forward_source(es, i + 1),
        }
    }
}

/// The resolution of the item named `name` in `t`, following at most `depth`
/// levels of nested forwards.
pub open spec fn resolve_spec(name: Seq<char>, t: Map<Seq<char>, Seq<MsgView>>, depth: nat) -> Result<
    Seq<ForwardView>,
    DecodeErrorView,
>
    decreases depth, 0int, 0int,
{
    if depth == 0 {
        Err(DecodeErrorView::TooDeep)
    } else if !t.contains_key(name) {
        Err(DecodeErrorView::MissingReference(name))
    } else {
        resolve_msgs(t[name], t, (depth - 1) as nat, t[name].len() as int)
    }
}

/// The resolution of the first `n` messages of `msgs`, nested forwards being
/// resolved with `depth` levels left.
pub open spec fn resolve_msgs(
    msgs: Seq<MsgView>,
    t: Map<Seq<char>, Seq<MsgView>>,
    depth: nat,
    n: int,
) -> Result<Seq<ForwardView>, DecodeErrorView>
    decreases depth, 1int, n,
{
    if n <= 0 {
        Ok(Seq::empty())
    } else {
        match resolve_msgs(msgs, t, depth, n - 1) {
            Err(e) => Err(e),
            Ok(prev) => {
                let m = msgs[n - 1];
                match sender_name_of(m) {
                    None => Err(DecodeErrorView::InvalidText),
                    Some(sender) => match first_forward_source(m.elems, 0) {
                        None => Ok(
                            prev.push(
                                ForwardView::Message {
                                    sender_id: m.from_uin,
                                    time: m.msg_time,
                                    sender_name: sender,
                                    elements: m.elems,
                                },
                            ),
                        ),
                        Some(src) => match file_name_of(src) {
                            None => Err(DecodeErrorView::EmptyField(Field::FileName)),
                            Some(child) => match resolve_spec(child, t, depth) {
                                Err(e) => Err(e),
                                Ok(nodes) => Ok(
                                    prev.push(
                                        ForwardView::Forward {
                                            sender_id: m.from_uin,
                                            time: m.msg_time,
                                            sender_name: sender,
                                            nodes: nodes,
                                        },
                                    ),
                                ),
                            },
                        },
                    },
                }
            },
        }
    }
}

/// The value of a resolution result.
pub open spec fn resolved_view(r: Result<Vec<ForwardMessage>, DecodeError>) -> Result<
    Seq<ForwardView>,
    DecodeErrorView,
> {
    match r {
        Ok(v) => Ok(forwards_view(v@)),
        Err(e) => Err(e@),
    }
}

/// Once a prefix of the messages fails, every longer prefix fails alike.
pub proof fn lemma_resolve_msgs_err(
    msgs: Seq<MsgView>,
    t: Map<Seq<char>, Seq<MsgView>>,
    depth: nat,
    n: int,
    k: int,
)
    requires
        0 <= n <= k,
        resolve_msgs(msgs, t, depth, n) is Err,
    ensures
        resolve_msgs(msgs, t, depth, k) == resolve_msgs(msgs, t, depth, n),
    decreases k - n,
{
    if k > n {
        lemma_resolve_msgs_err(msgs, t, depth, n, k - 1);
    }
}

fn sender_name(m: &Msg) -> (r: Option<String>)
    ensures
        match r {
            Some(s) => sender_name_of(m@) == Some(s@),
            None => sender_name_of(m@) is None,
        },
{
    let head = &m.head;
    match &head.group_info {
        Some(g) => {
            if head.msg_type == GROUP_ANNOUNCE_TYPE {
                return text_from_utf8(g.group_card.as_slice());
            }
        },
        None => {},
    }
    Some(head.from_nick.clone())
}

fn forward_source_exec(e: &Elem) -> (r: Option<&str>)
    ensures
        match r {
            Some(x) => forward_source(e@) == Some(x@),
            None => forward_source(e@) is None,
        },
{
    match e {
        Elem::RichMsg { service_id, template } => {
            if *service_id == FORWARD_SERVICE_ID {
                Some(template.as_str())
            } else {
                None
            }
        },
        Elem::LightApp { content } => {
            let marker = "{\"app\":\"com.tencent.multimsg\"";
            proof {
                reveal_strlit("{\"app\":\"com.tencent.multimsg\"");
                assert(marker@ =~= multimsg_app_marker());
            }
            if contains_exec(content.as_str(), marker) {
                Some(content.as_str())
            } else {
                None
            }
        },
        _ => None,
    }
}

fn first_forward_source_exec(elems: &Vec<Elem>) -> (r: Option<&str>)
    ensures
        match r {
            Some(x) => first_forward_source(elems_view(elems@), 0) == Some(x@),
            None => first_forward_source(elems_view(elems@), 0) is None,
        },
{
    let ghost ev = elems_view(elems@);
    let mut j: usize = 0;
    while j < elems.len()
        invariant
            j <= elems.len(),
            ev == elems_view(elems@),
            first_forward_source(ev, 0) == first_forward_source(ev, j as int),
        decreases elems.len() - j,
    {
        let s = forward_source_exec(&elems[j]);
        if s.is_some() {
            return s;
        }
        j = j + 1;
    }
    None
}

fn resolve_in(name: &str, items: &ItemTable, depth: usize) -> (r: Result<
    Vec<ForwardMessage>,
    DecodeError,
>)
    ensures
        resolved_view(r) == resolve_spec(name@, items@, depth as nat),
    decreases depth,
{
    if depth == 0 {
        return Err(DecodeError::TooDeep);
    }
    let item = match items.get(name) {
        Some(it) => it,
        None => {
            return Err(DecodeError::MissingReference(name.to_owned()));
        },
    };
    let ghost t = items@;
    let ghost msgs_v = t[name@];
    let ghost d = (depth - 1) as nat;
    let msgs = &item.msgs;
    assert(msgs_v.len() == msgs.len());
    let mut nodes: Vec<ForwardMessage> = Vec::new();
    let mut i: usize = 0;
    while i < msgs.len()
        invariant
            i <= msgs.len(),
            t == items@,
            msgs_v == item@,
            msgs_v.len() == msgs.len(),
            msgs == item.msgs,
            d == depth - 1,
            depth > 0,
            resolve_spec(name@, t, depth as nat) == resolve_msgs(msgs_v, t, d, msgs_v.len() as int),
            resolve_msgs(msgs_v, t, d, i as int) == Ok::<Seq<ForwardView>, DecodeErrorView>(
                forwards_view(nodes@),
            ),
        decreases msgs.len() - i,
    {
        let m = &msgs[i];
        assert(msgs_v[i as int] == m@);
        let sender = match sender_name(m) {
            Some(s) => s,
            None => {
                proof {
                    lemma_resolve_msgs_err(msgs_v, t, d, i + 1, msgs_v.len() as int);
                }
                return Err(DecodeError::InvalidText);
            },
        };
        match first_forward_source_exec(&m.elems) {
            None => {
                let elements = duplicate_elems(&m.elems);
                let node = ForwardMessage::Message(
                    MessageNode {
                        sender_id: m.head.from_uin,
                        time: m.head.msg_time,
                        sender_name: sender,
                        elements,
                    },
                );
                proof {
                    lemma_forwards_view_push(nodes@, node);
                }
                nodes.push(node);
            },
            Some(src) => {
                let child = match find_file_name(src) {
                    Some(c) => c,
                    None => {
                        proof {
                            lemma_resolve_msgs_err(msgs_v, t, d, i + 1, msgs_v.len() as int);
                        }
                        return Err(DecodeError::EmptyField(Field::FileName));
                    },
                };
                let sub = match resolve_in(child, items, depth - 1) {
                    Ok(v) => v,
                    Err(e) => {
                        proof {
                            lemma_resolve_msgs_err(msgs_v, t, d, i + 1, msgs_v.len() as int);
                        }
                        return Err(e);
                    },
                };
                let node = ForwardMessage::Forward(
                    ForwardNode {
                        sender_id: m.head.from_uin,
                        time: m.head.msg_time,
                        sender_name: sender,
                        nodes: sub,
                    },
                );
                proof {
                    lemma_forwards_view_push(nodes@, node);
                }
                nodes.push(node);
            },
        }
        i = i + 1;
    }
    Ok(nodes)
}

/// Decodes and resolves forwarded chat history.
pub struct Engine {}

impl Engine {
    /// A decoder.
    pub fn new() -> (r: Engine) {
        Engine {}
    }

    /// Resolves the item named `file_name` into a forest of forward nodes,
    /// following nested forwards through `items`.
    pub fn decode_forward_message(&self, file_name: &str, items: &ItemTable) -> (r: Result<
        Vec<ForwardMessage>,
        DecodeError,
    >)
        ensures
            resolved_view(r) == resolve_spec(file_name@, items@, MAX_FORWARD_DEPTH as nat),
    {
        resolve_in(file_name, items, MAX_FORWARD_DEPTH)
    }
}

} // verus!
