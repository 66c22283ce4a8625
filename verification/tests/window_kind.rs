use tessera::{ManagePolicy, WindowKind};

#[test]
fn every_kind_maps_to_exactly_one_policy() {
    let all = WindowKind::all();
    assert_eq!(all.len(), 11);
    for &kind in &all {
        let matches = all.iter().filter(|&&k| k == kind).count();
        assert_eq!(matches, 1, "{kind:?} must be listed exactly once");
        assert!(matches!(
            kind.policy(),
            ManagePolicy::Tile | ManagePolicy::MapOnly
        ));
    }
}

#[test]
fn ignore_group_is_map_only_and_tiled_group_is_tile() {
    let tiled = [
        WindowKind::Normal,
        WindowKind::Dialog,
        WindowKind::Utility,
        WindowKind::Toolbar,
    ];
    let ignored = [
        WindowKind::Notification,
        WindowKind::Tooltip,
        WindowKind::DropdownMenu,
        WindowKind::PopupMenu,
        WindowKind::Menu,
        WindowKind::Dock,
        WindowKind::Splash,
    ];
    for kind in tiled {
        assert_eq!(kind.policy(), ManagePolicy::Tile, "{kind:?} must tile");
    }
    for kind in ignored {
        assert_eq!(
            kind.policy(),
            ManagePolicy::MapOnly,
            "{kind:?} must be map-only"
        );
    }
}
