use ricq_multimsg::error::{DecodeError, Field};
use ricq_multimsg::model::{
    Elem, ForwardMessage, ForwardNode, GroupInfo, MessageNode, Msg, MsgHead, MultiMsgItem,
};
use ricq_multimsg::resolve::Engine;
use ricq_multimsg::table::ItemTable;

fn head(uin: i64, time: i32, nick: &str) -> MsgHead {
    MsgHead {
        from_uin: uin,
        msg_time: time,
        msg_type: 166,
        from_nick: nick.to_string(),
        group_info: None,
    }
}

fn text(s: &str) -> Elem {
    Elem::Text { content: s.to_string() }
}

fn item(name: &str, msgs: Vec<Msg>) -> MultiMsgItem {
    MultiMsgItem { file_name: name.to_string(), msgs }
}

fn table(items: Vec<MultiMsgItem>) -> ItemTable {
    ItemTable::from_items(items)
}

fn light_app_forward(name: &str) -> Elem {
    Elem::LightApp {
        content: format!(
            "{{\"app\":\"com.tencent.multimsg\",\"desc\":\"[chat]\",\"extra\":\"{{\\\"tsum\\\":1,\\\"filename\\\":\\\"{name}\\\"}}\"}}"
        ),
    }
}

fn rich_forward(name: &str) -> Elem {
    Elem::RichMsg {
        service_id: 35,
        template: format!("<msg serviceID=\"35\" m_fileName=\"{name}\" multiMsgFlag=\"1\"/>"),
    }
}

#[test]
fn forward_scenario_resolves_nested() {
    let t = table(vec![
        item("A", vec![Msg { head: head(1, 10, "u1"), elems: vec![light_app_forward("B")] }]),
        item("B", vec![Msg { head: head(2, 20, "u2"), elems: vec![text("hi")] }]),
    ]);
    let r = Engine::new().decode_forward_message("A", &t).unwrap();
    let expected = vec![ForwardMessage::Forward(ForwardNode {
        sender_id: 1,
        time: 10,
        sender_name: "u1".to_string(),
        nodes: vec![ForwardMessage::Message(MessageNode {
            sender_id: 2,
            time: 20,
            sender_name: "u2".to_string(),
            elements: vec![text("hi")],
        })],
    })];
    assert_eq!(r, expected);
}

#[test]
fn plain_group_yields_leaves() {
    let elems0 = vec![text("a"), Elem::Image { resource: "img.png".to_string() }];
    let elems1 = vec![
        Elem::RichMsg { service_id: 1, template: "m_fileName=\"X\"".to_string() },
        Elem::LightApp { content: "{\"app\":\"com.tencent.other\",\"filename\":\"X\"}".to_string() },
    ];
    let elems2: Vec<Elem> = vec![];
    let t = table(vec![item(
        "G",
        vec![
            Msg { head: head(5, 1, "x"), elems: elems0.clone() },
            Msg { head: head(6, 2, "y"), elems: elems1.clone() },
            Msg { head: head(7, 3, "z"), elems: elems2.clone() },
        ],
    )]);
    let r = Engine::new().decode_forward_message("G", &t).unwrap();
    assert_eq!(r.len(), 3);
    let expected = [(5, 1, "x", elems0), (6, 2, "y", elems1), (7, 3, "z", elems2)];
    for (node, (uin, time, nick, elems)) in r.iter().zip(expected.iter()) {
        match node {
            ForwardMessage::Message(m) => {
                assert_eq!(m.sender_id, *uin);
                assert_eq!(m.time, *time);
                assert_eq!(m.sender_name, *nick);
                assert_eq!(&m.elements, elems);
            }
            ForwardMessage::Forward(_) => panic!("a plain message became a forward"),
        }
    }
}

#[test]
fn nested_reference_matches_child_resolution() {
    let t = table(vec![
        item(
            "root",
            vec![
                Msg { head: head(1, 1, "a"), elems: vec![text("before")] },
                Msg { head: head(2, 2, "b"), elems: vec![text("see"), rich_forward("child")] },
            ],
        ),
        item(
            "child",
            vec![
                Msg { head: head(3, 3, "c"), elems: vec![text("one")] },
                Msg { head: head(4, 4, "d"), elems: vec![text("two")] },
            ],
        ),
    ]);
    let engine = Engine::new();
    let root = engine.decode_forward_message("root", &t).unwrap();
    let child = engine.decode_forward_message("child", &t).unwrap();
    assert_eq!(root.len(), 2);
    match &root[1] {
        ForwardMessage::Forward(f) => {
            assert_eq!(f.sender_id, 2);
            assert_eq!(f.sender_name, "b");
            assert_eq!(f.nodes, child);
        }
        ForwardMessage::Message(_) => panic!("the reference was not followed"),
    }
}

#[test]
fn missing_reference_names_key() {
    let t = table(vec![item("A", vec![])]);
    let r = Engine::new().decode_forward_message("nope", &t);
    assert_eq!(r, Err(DecodeError::MissingReference("nope".to_string())));
}

#[test]
fn missing_nested_reference_fails_whole_tree() {
    let t = table(vec![item(
        "A",
        vec![
            Msg { head: head(1, 1, "a"), elems: vec![text("fine")] },
            Msg { head: head(2, 2, "b"), elems: vec![light_app_forward("gone")] },
        ],
    )]);
    let r = Engine::new().decode_forward_message("A", &t);
    assert_eq!(r, Err(DecodeError::MissingReference("gone".to_string())));
}

#[test]
fn rich_markup_without_marker_is_empty_field() {
    let t = table(vec![item(
        "A",
        vec![Msg {
            head: head(1, 1, "a"),
            elems: vec![
                Elem::RichMsg { service_id: 35, template: "<msg serviceID=\"35\"/>".to_string() },
                rich_forward("B"),
            ],
        }],
    ), item("B", vec![])]);
    let r = Engine::new().decode_forward_message("A", &t);
    assert_eq!(r, Err(DecodeError::EmptyField(Field::FileName)));
}

#[test]
fn group_card_names_announcement_sender() {
    let mut h = head(9, 9, "nick");
    h.msg_type = 82;
    h.group_info = Some(GroupInfo { group_card: "card".as_bytes().to_vec() });
    let mut other = head(8, 8, "nick2");
    other.group_info = Some(GroupInfo { group_card: "unused".as_bytes().to_vec() });
    let t = table(vec![item(
        "A",
        vec![Msg { head: h, elems: vec![text("x")] }, Msg { head: other, elems: vec![text("y")] }],
    )]);
    let r = Engine::new().decode_forward_message("A", &t).unwrap();
    match (&r[0], &r[1]) {
        (ForwardMessage::Message(a), ForwardMessage::Message(b)) => {
            assert_eq!(a.sender_name, "card");
            assert_eq!(b.sender_name, "nick2");
        }
        _ => panic!("expected two leaves"),
    }
}

#[test]
fn invalid_group_card_is_invalid_text() {
    let mut h = head(9, 9, "nick");
    h.msg_type = 82;
    h.group_info = Some(GroupInfo { group_card: vec![0xff, 0xfe, 0x41] });
    let t = table(vec![item("A", vec![Msg { head: h, elems: vec![text("x")] }])]);
    let r = Engine::new().decode_forward_message("A", &t);
    assert_eq!(r, Err(DecodeError::InvalidText));
}

#[test]
fn cyclic_reference_is_too_deep() {
    let t = table(vec![item(
        "A",
        vec![Msg { head: head(1, 1, "a"), elems: vec![rich_forward("A")] }],
    )]);
    let r = Engine::new().decode_forward_message("A", &t);
    assert_eq!(r, Err(DecodeError::TooDeep));
}

#[test]
fn item_table_keeps_last_duplicate() {
    let t = table(vec![
        item("A", vec![Msg { head: head(1, 1, "first"), elems: vec![] }]),
        item("A", vec![Msg { head: head(2, 2, "second"), elems: vec![] }]),
    ]);
    let got = t.get("A").unwrap();
    assert_eq!(got.msgs[0].head.from_nick, "second");
    assert!(t.get("B").is_none());
    let mut t2 = ItemTable::new();
    t2.insert(item("K", vec![]));
    assert!(t2.get("K").is_some());
}
