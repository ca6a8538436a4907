use vstd::prelude::*;

verus! {

/// One typed unit of message content.
#[derive(Clone, Debug, PartialEq, Eq)]
pub enum Elem {
    Text { content: String },
    Image { resource: String },
    RichMsg { service_id: i32, template: String },
    LightApp { content: String },
}

/// The mathematical value of an [`Elem`].
pub enum ElemView {
    Text { content: Seq<char> },
    Image { resource: Seq<char> },
    RichMsg { service_id: i32, template: Seq<char> },
    LightApp { content: Seq<char> },
}

impl View for Elem {
    type V = ElemView;

    open spec fn view(&self) -> ElemView {
        match self {
            Elem::Text { content } => ElemView::Text { content: content@ },
            Elem::Image { resource } => ElemView::Image { resource: resource@ },
            Elem::RichMsg { service_id, template } => ElemView::RichMsg {
                service_id: *service_id,
                template: template@,
            },
            Elem::LightApp { content } => ElemView::LightApp { content: content@ },
        }
    }
}

/// The values of a sequence of elements.
pub open spec fn elems_view(s: Seq<Elem>) -> Seq<ElemView> {
    s.map_values(|e: Elem| e@)
}

impl Elem {
    /// A copy of this element.
    pub fn duplicate(&self) -> (r: Elem)
        ensures
            r@ == self@,
    {
        match self {
            Elem::Text { content } => Elem::Text { content: content.clone() },
            Elem::Image { resource } => Elem::Image { resource: resource.clone() },
            Elem::RichMsg { service_id, template } => Elem::RichMsg {
                service_id: *service_id,
                template: template.clone(),
            },
            Elem::LightApp { content } => Elem::LightApp { content: content.clone() },
        }
    }
}

/// A copy of a list of elements, in order.
pub fn duplicate_elems(v: &Vec<Elem>) -> (r: Vec<Elem>)
    ensures
        elems_view(r@) == elems_view(v@),
{
    let mut r: Vec<Elem> = Vec::new();
    let mut i: usize = 0;
    while i < v.len()
        invariant
            i <= v.len(),
            r@.len() == i,
            forall|k: int| 0 <= k < i ==> r@[k]@ == v@[k]@,
        decreases v.len() - i,
    {
        r.push(v[i].duplicate());
        i = i + 1;
    }
    assert(elems_view(r@) =~= elems_view(v@));
    r
}

/// Group metadata of a message head.
#[derive(Clone, Debug, PartialEq, Eq)]
pub struct GroupInfo {
    pub group_card: Vec<u8>,
}

/// Sender identity and timing of one raw message.
#[derive(Clone, Debug, PartialEq, Eq)]
pub struct MsgHead {
    pub from_uin: i64,
    pub msg_time: i32,
    pub msg_type: i32,
    pub from_nick: String,
    pub group_info: Option<GroupInfo>,
}

/// One raw message record of an item group.
#[derive(Clone, Debug, PartialEq, Eq)]
pub struct Msg {
    pub head: MsgHead,
    pub elems: Vec<Elem>,
}

/// The mathematical value of a [`Msg`].
pub struct MsgView {
    pub from_uin: i64,
    pub msg_time: i32,
    pub msg_type: i32,
    pub from_nick: Seq<char>,
    pub group_card: Option<Seq<u8>>,
    pub elems: Seq<ElemView>,
}

impl View for Msg {
    type V = MsgView;

    open spec fn view(&self) -> MsgView {
        MsgView {
            from_uin: self.head.from_uin,
            msg_time: self.head.msg_time,
            msg_type: self.head.msg_type,
            from_nick: self.head.from_nick@,
            group_card: match self.head.group_info {
                Some(g) => Some(g.group_card@),
                None => None,
            },
            elems: elems_view(self.elems@),
        }
    }
}

/// One named entry of a decoded transport: the raw messages of one
/// forwarded conversation.
#[derive(Clone, Debug, PartialEq, Eq)]
pub struct MultiMsgItem {
    pub file_name: String,
    pub msgs: Vec<Msg>,
}

impl View for MultiMsgItem {
    type V = Seq<MsgView>;

    open spec fn view(&self) -> Seq<MsgView> {
        self.msgs@.map_values(|m: Msg| m@)
    }
}

/// A leaf of a resolved forward tree: one ordinary chat message.
#[derive(Clone, Debug, PartialEq, Eq)]
pub struct MessageNode {
    pub sender_id: i64,
    pub time: i32,
    pub sender_name: String,
    pub elements: Vec<Elem>,
}

/// An interior node of a resolved forward tree: a nested forwarded
/// conversation.
#[derive(Debug, PartialEq, Eq)]
pub struct ForwardNode {
    pub sender_id: i64,
    pub time: i32,
    pub sender_name: String,
    pub nodes: Vec<ForwardMessage>,
}

/// A node of a resolved forward tree.
#[derive(Debug, PartialEq, Eq)]
pub enum ForwardMessage {
    Message(MessageNode),
    Forward(ForwardNode),
}

/// The mathematical value of a [`ForwardMessage`].
pub enum ForwardView {
    Message { sender_id: i64, time: i32, sender_name: Seq<char>, elements: Seq<ElemView> },
    Forward { sender_id: i64, time: i32, sender_name: Seq<char>, nodes: Seq<ForwardView> },
}

/// The value of one resolved node.
pub open spec fn forward_view(m: ForwardMessage) -> ForwardView
    decreases m,
{
    match m {
        ForwardMessage::Message(n) => ForwardView::Message {
            sender_id: n.sender_id,
            time: n.time,
            sender_name: n.sender_name@,
            elements: elems_view(n.elements@),
        },
        ForwardMessage::Forward(f) => ForwardView::Forward {
            sender_id: f.sender_id,
            time: f.time,
            sender_name: f.sender_name@,
            nodes: forwards_view(f.nodes@),
        },
    }
}

/// The values of a sequence of resolved nodes.
pub open spec fn forwards_view(s: Seq<ForwardMessage>) -> Seq<ForwardView>
    decreases s,
{
    if s.len() == 0 {
        Seq::empty()
    } else {
        forwards_view(s.drop_last()).push(forward_view(s.last()))
    }
}

/// Appending a node appends its value.
pub proof fn lemma_forwards_view_push(s: Seq<ForwardMessage>, m: ForwardMessage)
    ensures
        forwards_view(s.push(m)) == forwards_view(s).push(forward_view(m)),
{
    assert(s.push(m).drop_last() =~= s);
}

} // verus!
