use vstd::prelude::*;

verus! {

/// Identifier of a menu item.
#[derive(Debug, Clone, PartialEq, Eq)]
pub struct MenuId(pub String);

/// An RGBA icon.
#[derive(Debug, Clone, PartialEq, Eq)]
pub struct Icon {
    pub rgba: Vec<u8>,
    pub width: u32,
    pub height: u32,
}

/// A platform icon, by its system name.
#[derive(Debug, Clone, PartialEq, Eq)]
pub struct NativeIcon(pub String);

/// What the About item shows.
#[derive(Debug, Clone, PartialEq, Eq)]
pub struct AboutMetadata {
    pub name: Option<String>,
    pub version: Option<String>,
    pub short_version: Option<String>,
    pub authors: Option<Vec<String>>,
    pub comments: Option<String>,
    pub copyright: Option<String>,
    pub license: Option<String>,
    pub website: Option<String>,
    pub website_label: Option<String>,
    pub credits: Option<String>,
}

/// An item whose behaviour the platform provides.
#[derive(Debug, Clone, PartialEq, Eq)]
pub enum PredefinedMenuItem {
    Separator,
    Copy,
    Cut,
    Paste,
    SelectAll,
    Undo,
    Redo,
    Minimize,
    Maximize,
    Fullscreen,
    HideApp,
    HideOthers,
    ShowAll,
    CloseWindow,
    Quit,
    About(Option<AboutMetadata>),
    Services,
}

/// A menu item.
#[derive(Debug, PartialEq, Eq)]
pub enum MenuItemKind {
    /// A text item.
    MenuItem { id: MenuId, text: String, enabled: bool },
    /// A check item.
    Check { id: MenuId, text: String, enabled: bool, checked: bool },
    /// An item with an RGBA icon.
    Icon { id: MenuId, text: String, enabled: bool, icon: Option<Icon> },
    /// An item with a platform icon.
    NativeIcon { id: MenuId, text: String, enabled: bool, native_icon: Option<NativeIcon> },
    /// A predefined item.
    Predefined(PredefinedMenuItem),
    /// A nested submenu.
    Submenu(Submenu),
}

/// A submenu: its id (none for one the platform names), text, enabled state
/// and items.
#[derive(Debug, PartialEq, Eq)]
pub struct Submenu {
    pub id: Option<MenuId>,
    pub text: String,
    pub enabled: bool,
    pub items: Vec<MenuItemKind>,
}

/// A builder type for [`Submenu`].
#[derive(Debug)]
pub struct SubmenuBuilder {
    id: Option<MenuId>,
    text: String,
    enabled: bool,
    items: Vec<MenuItemKind>,
}

impl SubmenuBuilder {
    /// The id set so far.
    pub closed spec fn spec_id(&self) -> Option<MenuId> {
        self.id
    }

    /// The text.
    pub closed spec fn spec_text(&self) -> Seq<char> {
        self.text@
    }

    /// The enabled state.
    pub closed spec fn spec_enabled(&self) -> bool {
        self.enabled
    }

    /// The items added so far, in order.
    pub closed spec fn spec_items(&self) -> Seq<MenuItemKind> {
        self.items@
    }

    /// `r` is this builder with one more item, which satisfies `last`.
    pub open spec fn appended(self, r: SubmenuBuilder, last: spec_fn(MenuItemKind) -> bool) -> bool {
        &&& r.spec_id() == self.spec_id()
        &&& r.spec_text() == self.spec_text()
        &&& r.spec_enabled() == self.spec_enabled()
        &&& r.spec_items().len() == self.spec_items().len() + 1
        &&& r.spec_items().drop_last() == self.spec_items()
        &&& last(r.spec_items().last())
    }

    /// `r` is this builder with one more predefined item.
    pub open spec fn appended_predefined(self, r: SubmenuBuilder, item: PredefinedMenuItem) -> bool {
        self.appended(r, |k: MenuItemKind| k == MenuItemKind::Predefined(item))
    }

    fn push(self, item: MenuItemKind) -> (r: SubmenuBuilder)
        ensures
            self.appended(r, |k: MenuItemKind| k == item),
    {
        let mut b = self;
        b.items.push(item);
        proof {
            assert(b.items@.drop_last() =~= self.items@);
        }
        b
    }

    /// Create a new submenu builder.
    ///
    /// - `text` could optionally contain an `&` before a character to assign
    /// this character as the mnemonic for this menu item. To display a `&`
    /// without assigning a mnemonic, use `&&`.
    pub fn new(text: &str) -> (r: SubmenuBuilder)
        ensures
            r.spec_id() is None,
            r.spec_text() == text@,
            r.spec_enabled(),
            r.spec_items().len() == 0,
    {
        SubmenuBuilder { id: None, items: Vec::new(), text: text.to_owned(), enabled: true }
    }

    /// Create a new submenu builder with the specified id.
    pub fn with_id(id: &str, text: &str) -> (r: SubmenuBuilder)
        ensures
            r.spec_id() matches Some(i) && i.0@ == id@,
            r.spec_text() == text@,
            r.spec_enabled(),
            r.spec_items().len() == 0,
    {
        SubmenuBuilder {
            id: Some(MenuId(id.to_owned())),
            text: text.to_owned(),
            enabled: true,
            items: Vec::new(),
        }
    }

    /// Set the id for this submenu.
    pub fn id(self, id: &str) -> (r: SubmenuBuilder)
        ensures
            r.spec_id() matches Some(i) && i.0@ == id@,
            r.spec_text() == self.spec_text(),
            r.spec_enabled() == self.spec_enabled(),
            r.spec_items() == self.spec_items(),
    {
        let mut b = self;
        b.id = Some(MenuId(id.to_owned()));
        b
    }

    /// Set the enabled state for the submenu.
    pub fn enabled(self, enabled: bool) -> (r: SubmenuBuilder)
        ensures
            r.spec_id() == self.spec_id(),
            r.spec_text() == self.spec_text(),
            r.spec_enabled() == enabled,
            r.spec_items() == self.spec_items(),
    {
        let mut b = self;
        b.enabled = enabled;
        b
    }

    /// Add this item to the submenu.
    pub fn item(self, item: MenuItemKind) -> (r: SubmenuBuilder)
        ensures
            self.appended(r, |k: MenuItemKind| k == item),
    {
        self.push(item)
    }

    /// Add these items to the submenu, in order.
    pub fn items(self, items: Vec<MenuItemKind>) -> (r: SubmenuBuilder)
        ensures
            r.spec_id() == self.spec_id(),
            r.spec_text() == self.spec_text(),
            r.spec_enabled() == self.spec_enabled(),
            r.spec_items() == self.spec_items() + items@,
    {
        let mut b = self;
        let mut rest = items;
        b.items.append(&mut rest);
        b
    }

    /// Add a text item to the submenu.
    pub fn text(self, id: &str, text: &str) -> (r: SubmenuBuilder)
        ensures
            self.appended(
                r,
                |k: MenuItemKind|
                    k matches MenuItemKind::MenuItem { id: i, text: t, enabled: e } && i.0@ == id@
                        && t@ == text@ && e,
            ),
    {
        self.push(MenuItemKind::MenuItem { id: MenuId(id.to_owned()), text: text.to_owned(), enabled: true })
    }

    /// Add a check item, checked, to the submenu.
    pub fn check(self, id: &str, text: &str) -> (r: SubmenuBuilder)
        ensures
            self.appended(
                r,
                |k: MenuItemKind|
                    k matches MenuItemKind::Check { id: i, text: t, enabled: e, checked: c } && i.0@
                        == id@ && t@ == text@ && e && c,
            ),
    {
        self.push(
            MenuItemKind::Check {
                id: MenuId(id.to_owned()),
                text: text.to_owned(),
                enabled: true,
                checked: true,
            },
        )
    }

    /// Add an item with an icon to the submenu.
    pub fn icon(self, id: &str, text: &str, icon: Icon) -> (r: SubmenuBuilder)
        ensures
            self.appended(
                r,
                |k: MenuItemKind|
                    k matches MenuItemKind::Icon { id: i, text: t, enabled: e, icon: ic } && i.0@
                        == id@ && t@ == text@ && e && ic == Some(icon),
            ),
    {
        self.push(
            MenuItemKind::Icon {
                id: MenuId(id.to_owned()),
                text: text.to_owned(),
                enabled: true,
                icon: Some(icon),
            },
        )
    }

    /// Add an item with a platform icon to the submenu.
    pub fn native_icon(self, id: &str, text: &str, icon: NativeIcon) -> (r: SubmenuBuilder)
        ensures
            self.appended(
                r,
                |k: MenuItemKind|
                    k matches MenuItemKind::NativeIcon { id: i, text: t, enabled: e, native_icon: ic }
                        && i.0@ == id@ && t@ == text@ && e && ic == Some(icon),
            ),
    {
        self.push(
            MenuItemKind::NativeIcon {
                id: MenuId(id.to_owned()),
                text: text.to_owned(),
                enabled: true,
                native_icon: Some(icon),
            },
        )
    }

    /// Add About app menu item to the submenu.
    pub fn about(self, metadata: Option<AboutMetadata>) -> (r: SubmenuBuilder)
        ensures
            self.appended_predefined(r, PredefinedMenuItem::About(metadata)),
    {
        self.push(MenuItemKind::Predefined(PredefinedMenuItem::About(metadata)))
    }

    /// Add a separator to the submenu.
    pub fn separator(self) -> (r: SubmenuBuilder)
        ensures
            self.appended_predefined(r, PredefinedMenuItem::Separator),
    {
        self.push(MenuItemKind::Predefined(PredefinedMenuItem::Separator))
    }

    /// Add Copy menu item to the submenu.
    pub fn copy(self) -> (r: SubmenuBuilder)
        ensures
            self.appended_predefined(r, PredefinedMenuItem::Copy),
    {
        self.push(MenuItemKind::Predefined(PredefinedMenuItem::Copy))
    }

    /// Add Cut menu item to the submenu.
    pub fn cut(self) -> (r: SubmenuBuilder)
        ensures
            self.appended_predefined(r, PredefinedMenuItem::Cut),
    {
        self.push(MenuItemKind::Predefined(PredefinedMenuItem::Cut))
    }

    /// Add Paste menu item to the submenu.
    pub fn paste(self) -> (r: SubmenuBuilder)
        ensures
            self.appended_predefined(r, PredefinedMenuItem::Paste),
    {
        self.push(MenuItemKind::Predefined(PredefinedMenuItem::Paste))
    }

    /// Add SelectAll menu item to the submenu.
    pub fn select_all(self) -> (r: SubmenuBuilder)
        ensures
            self.appended_predefined(r, PredefinedMenuItem::SelectAll),
    {
        self.push(MenuItemKind::Predefined(PredefinedMenuItem::SelectAll))
    }

    /// Add Undo menu item to the submenu.
    pub fn undo(self) -> (r: SubmenuBuilder)
        ensures
            self.appended_predefined(r, PredefinedMenuItem::Undo),
    {
        self.push(MenuItemKind::Predefined(PredefinedMenuItem::Undo))
    }

    /// Add Redo menu item to the submenu.
    pub fn redo(self) -> (r: SubmenuBuilder)
        ensures
            self.appended_predefined(r, PredefinedMenuItem::Redo),
    {
        self.push(MenuItemKind::Predefined(PredefinedMenuItem::Redo))
    }

    /// Add Minimize window menu item to the submenu.
    pub fn minimize(self) -> (r: SubmenuBuilder)
        ensures
            self.appended_predefined(r, PredefinedMenuItem::Minimize),
    {
        self.push(MenuItemKind::Predefined(PredefinedMenuItem::Minimize))
    }

    /// Add Maximize window menu item to the submenu.
    pub fn maximize(self) -> (r: SubmenuBuilder)
        ensures
            self.appended_predefined(r, PredefinedMenuItem::Maximize),
    {
        self.push(MenuItemKind::Predefined(PredefinedMenuItem::Maximize))
    }

    /// Add Fullscreen menu item to the submenu.
    pub fn fullscreen(self) -> (r: SubmenuBuilder)
        ensures
            self.appended_predefined(r, PredefinedMenuItem::Fullscreen),
    {
        self.push(MenuItemKind::Predefined(PredefinedMenuItem::Fullscreen))
    }

    /// Add Hide menu item to the submenu.
    pub fn hide_app(self) -> (r: SubmenuBuilder)
        ensures
            self.appended_predefined(r, PredefinedMenuItem::HideApp),
    {
        self.push(MenuItemKind::Predefined(PredefinedMenuItem::HideApp))
    }

    /// Add Hide Others menu item to the submenu.
    pub fn hide_others(self) -> (r: SubmenuBuilder)
        ensures
            self.appended_predefined(r, PredefinedMenuItem::HideOthers),
    {
        self.push(MenuItemKind::Predefined(PredefinedMenuItem::HideOthers))
    }

    /// Add Show All app menu item to the submenu.
    pub fn show_all(self) -> (r: SubmenuBuilder)
        ensures
            self.appended_predefined(r, PredefinedMenuItem::ShowAll),
    {
        self.push(MenuItemKind::Predefined(PredefinedMenuItem::ShowAll))
    }

    /// Add Close Window menu item to the submenu.
    pub fn close_window(self) -> (r: SubmenuBuilder)
        ensures
            self.appended_predefined(r, PredefinedMenuItem::CloseWindow),
    {
        self.push(MenuItemKind::Predefined(PredefinedMenuItem::CloseWindow))
    }

    /// Add Quit app menu item to the submenu.
    pub fn quit(self) -> (r: SubmenuBuilder)
        ensures
            self.appended_predefined(r, PredefinedMenuItem::Quit),
    {
        self.push(MenuItemKind::Predefined(PredefinedMenuItem::Quit))
    }

    /// Add Services menu item to the submenu.
    pub fn services(self) -> (r: SubmenuBuilder)
        ensures
            self.appended_predefined(r, PredefinedMenuItem::Services),
    {
        self.push(MenuItemKind::Predefined(PredefinedMenuItem::Services))
    }

    /// Builds this submenu: its id, text, enabled state and items as set.
    pub fn build(self) -> (r: Submenu)
        ensures
            r.id == self.spec_id(),
            r.text@ == self.spec_text(),
            r.enabled == self.spec_enabled(),
            r.items@ == self.spec_items(),
    {
        Submenu { id: self.id, text: self.text, enabled: self.enabled, items: self.items }
    }
}

} // verus!
