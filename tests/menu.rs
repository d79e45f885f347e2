use tauri_acl::{
    AboutMetadata, Icon, MenuItemKind, NativeIcon, PredefinedMenuItem, SubmenuBuilder,
};

#[test]
fn builder_keeps_text_id_and_state() {
    let s = SubmenuBuilder::new("File").build();
    assert_eq!(s.text, "File");
    assert!(s.id.is_none());
    assert!(s.enabled);
    assert!(s.items.is_empty());

    let s = SubmenuBuilder::with_id("file", "File").enabled(false).build();
    assert_eq!(s.id.unwrap().0, "file");
    assert!(!s.enabled);

    let s = SubmenuBuilder::new("Edit").id("edit").build();
    assert_eq!(s.id.unwrap().0, "edit");
}

#[test]
fn builder_appends_items_in_order() {
    let icon = Icon {
        rgba: vec![0, 0, 0, 255],
        width: 1,
        height: 1,
    };
    let s = SubmenuBuilder::new("File")
        .item(MenuItemKind::Predefined(PredefinedMenuItem::Separator))
        .items(vec![
            MenuItemKind::Predefined(PredefinedMenuItem::Quit),
            MenuItemKind::Predefined(PredefinedMenuItem::Services),
        ])
        .separator()
        .cut()
        .copy()
        .paste()
        .select_all()
        .undo()
        .redo()
        .minimize()
        .maximize()
        .fullscreen()
        .hide_app()
        .hide_others()
        .show_all()
        .close_window()
        .quit()
        .services()
        .about(Some(AboutMetadata {
            name: Some("app".into()),
            version: None,
            short_version: None,
            authors: None,
            comments: None,
            copyright: None,
            license: None,
            website: None,
            website_label: None,
            credits: None,
        }))
        .text("item2", "MenuItem 2")
        .check("checkitem2", "CheckMenuItem 2")
        .icon("iconitem2", "IconMenuItem 2", icon.clone())
        .native_icon("native", "Native", NativeIcon("NSFolder".into()))
        .build();
    assert_eq!(s.items.len(), 24);
    assert_eq!(
        s.items[3],
        MenuItemKind::Predefined(PredefinedMenuItem::Separator)
    );
    assert_eq!(s.items[4], MenuItemKind::Predefined(PredefinedMenuItem::Cut));
    assert_eq!(
        s.items[13],
        MenuItemKind::Predefined(PredefinedMenuItem::HideApp)
    );
    match &s.items[19] {
        MenuItemKind::Predefined(PredefinedMenuItem::About(Some(m))) => {
            assert_eq!(m.name.as_deref(), Some("app"))
        }
        other => panic!("unexpected item {other:?}"),
    }
    assert_eq!(
        s.items[20],
        MenuItemKind::MenuItem {
            id: tauri_acl::MenuId("item2".into()),
            text: "MenuItem 2".into(),
            enabled: true
        }
    );
    assert!(matches!(
        &s.items[21],
        MenuItemKind::Check { checked: true, enabled: true, .. }
    ));
    assert_eq!(
        s.items[22],
        MenuItemKind::Icon {
            id: tauri_acl::MenuId("iconitem2".into()),
            text: "IconMenuItem 2".into(),
            enabled: true,
            icon: Some(icon)
        }
    );
    assert!(matches!(
        &s.items[23],
        MenuItemKind::NativeIcon { native_icon: Some(NativeIcon(n)), .. } if n == "NSFolder"
    ));
}
