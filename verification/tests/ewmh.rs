use tessera::ewmh::DesktopSync;
use tessera::request::{Next, XReply, XRequest};
use tessera::window_type::{classify, window_kind};
use tessera::{DErr, WindowKind};
use x11rb::protocol::xproto::AtomEnum;

const ROOT: u32 = 0x0000_0010;
const NET_NUMBER: u32 = 0x0101;
const NET_CURRENT: u32 = 0x0102;
const NET_NAMES: u32 = 0x0103;
const UTF8_STRING_ATOM: u32 = 0x0201;
const WINDOW: u32 = 0x0000_1000;

fn cardinal() -> u32 {
    u32::from(AtomEnum::CARDINAL)
}

fn sync(count: u32, current: u32, names: &[&str]) -> Vec<XRequest> {
    let sync = DesktopSync {
        root: ROOT,
        count,
        current,
        names: names.iter().map(|n| n.to_string()).collect(),
    };
    let mut replies = Vec::new();
    let mut asked = Vec::new();
    loop {
        match sync.set_desktops(&replies) {
            Next::Ask(request) => {
                replies.push(match &request {
                    XRequest::Intern("_NET_NUMBER_OF_DESKTOPS") => XReply::Number(NET_NUMBER),
                    XRequest::Intern("_NET_CURRENT_DESKTOP") => XReply::Number(NET_CURRENT),
                    XRequest::Intern("_NET_DESKTOP_NAMES") => XReply::Number(NET_NAMES),
                    XRequest::Intern("UTF8_STRING") => XReply::Number(UTF8_STRING_ATOM),
                    XRequest::Intern(other) => panic!("unexpected interned name: {other}"),
                    _ => XReply::Done,
                });
                asked.push(request);
            }
            Next::Answer(outcome) => {
                outcome.unwrap();
                return asked;
            }
        }
    }
}

#[test]
fn set_desktops_writes_the_three_net_properties() {
    assert_eq!(
        sync(2, 1, &["1", "2"]),
        vec![
            XRequest::Intern("_NET_NUMBER_OF_DESKTOPS"),
            XRequest::Intern("_NET_CURRENT_DESKTOP"),
            XRequest::Intern("_NET_DESKTOP_NAMES"),
            XRequest::Intern("UTF8_STRING"),
            XRequest::SetCardinal {
                window: ROOT,
                property: NET_NUMBER,
                kind: cardinal(),
                value: 2,
            },
            XRequest::SetCardinal {
                window: ROOT,
                property: NET_CURRENT,
                kind: cardinal(),
                value: 1,
            },
            XRequest::SetBytes {
                window: ROOT,
                property: NET_NAMES,
                kind: UTF8_STRING_ATOM,
                data: b"1\x002\x00".to_vec(),
            },
        ]
    );
}

#[test]
fn set_desktops_encodes_names_null_terminated_and_skips_padding() {
    let calls = sync(3, 0, &["alpha", "b", "gamma"]);
    assert_eq!(
        calls[4],
        XRequest::SetCardinal {
            window: ROOT,
            property: NET_NUMBER,
            kind: cardinal(),
            value: 3,
        }
    );
    assert_eq!(
        calls[5],
        XRequest::SetCardinal {
            window: ROOT,
            property: NET_CURRENT,
            kind: cardinal(),
            value: 0,
        }
    );
    assert_eq!(
        calls[6],
        XRequest::SetBytes {
            window: ROOT,
            property: NET_NAMES,
            kind: UTF8_STRING_ATOM,
            data: b"alpha\0b\0gamma\0".to_vec(),
        }
    );
}

#[test]
fn a_failed_write_stops_the_sync() {
    let sync = DesktopSync {
        root: ROOT,
        count: 1,
        current: 0,
        names: Vec::new(),
    };
    let gone = DErr::X("gone".to_string());
    let replies = vec![
        XReply::Number(1),
        XReply::Number(2),
        XReply::Number(3),
        XReply::Number(4),
        XReply::Failed(gone.clone()),
    ];
    assert_eq!(sync.set_desktops(&replies), Next::Answer(Err(gone)));
}

/// Classifies `WINDOW` against a server that hands out atoms in the order in
/// which their names are asked for, after those of `known`.
fn kind_of(known: &[&str], property: Result<Vec<u32>, DErr>) -> Result<WindowKind, DErr> {
    let mut names: Vec<String> = known.iter().map(|n| n.to_string()).collect();
    let mut replies = Vec::new();
    loop {
        match window_kind(WINDOW, &replies) {
            Next::Ask(XRequest::Intern(name)) => {
                let at = match names.iter().position(|n| n == name) {
                    Some(at) => at,
                    None => {
                        names.push(name.to_string());
                        names.len() - 1
                    }
                };
                replies.push(XReply::Number(at as u32 + 1));
            }
            Next::Ask(XRequest::AtomProperty { window, .. }) => {
                assert_eq!(window, WINDOW);
                replies.push(match &property {
                    Ok(value) => XReply::Numbers(value.clone()),
                    Err(e) => XReply::Failed(e.clone()),
                });
            }
            Next::Ask(other) => panic!("unexpected request: {other:?}"),
            Next::Answer(outcome) => return outcome,
        }
    }
}

#[test]
fn first_recognized_atom_in_preference_order_wins() {
    let known = [
        "_SOME_VENDOR_EXTENSION",
        "_NET_WM_WINDOW_TYPE_TOOLTIP",
        "_NET_WM_WINDOW_TYPE_NOTIFICATION",
    ];
    assert_eq!(
        kind_of(&known, Ok(vec![1, 2, 3])),
        Ok(WindowKind::Tooltip)
    );
}

#[test]
fn absent_or_unknown_window_type_is_normal() {
    assert_eq!(kind_of(&[], Ok(Vec::new())), Ok(WindowKind::Normal));
    assert_eq!(
        kind_of(
            &["_SOME_VENDOR_EXTENSION", "_ANOTHER_UNKNOWN_ONE"],
            Ok(vec![1, 2])
        ),
        Ok(WindowKind::Normal)
    );
}

#[test]
fn property_read_failure_is_reported_as_derr() {
    let failure = DErr::X(format!("scripted failure: atom_property {WINDOW}"));
    assert_eq!(kind_of(&[], Err(failure.clone())), Err(failure));
}

#[test]
fn unrecognized_atoms_do_not_change_the_kind() {
    let recognized = vec![(7, WindowKind::Dock), (8, WindowKind::Menu)];
    assert_eq!(classify(&vec![8, 7], &recognized), WindowKind::Menu);
    assert_eq!(classify(&vec![1, 2, 8, 7], &recognized), WindowKind::Menu);
    assert_eq!(classify(&vec![1], &recognized), WindowKind::Normal);
}
