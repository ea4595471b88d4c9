//! The settings dock's sections: which are expanded, in the order they were
//! opened, and which one asked to be scrolled into view. Sections expand
//! independently and stay open; the `menu` script action opens one
//! exclusively so layout dumps stay deterministic.

use vstd::prelude::*;

verus! {

/// A function's dialog section.
#[derive(Debug, Clone, Copy, PartialEq, Eq, Structural)]
pub enum Menu {
    Channel(usize),
    Horizontal,
    Trigger,
    Acquire,
    Display,
    Measure,
    Math,
    Cursor,
    Utility,
    Record,
    Decode,
}

/// The heading a section is drawn under.
pub open spec fn menu_title(m: Menu) -> Seq<char> {
    match m {
        Menu::Channel(ch) => if ch == 0 {
            "Channel 1"@
        } else if ch == 1 {
            "Channel 2"@
        } else {
            "Channel"@
        },
        Menu::Horizontal => "Horizontal"@,
        Menu::Trigger => "Trigger"@,
        Menu::Acquire => "Acquire"@,
        Menu::Display => "Display"@,
        Menu::Measure => "Measure"@,
        Menu::Math => "Math"@,
        Menu::Cursor => "Cursors"@,
        Menu::Utility => "Utility"@,
        Menu::Record => "Record / Export"@,
        Menu::Decode => "Decode"@,
    }
}

impl Menu {
    /// The section's heading.
    pub fn title(self) -> (s: &'static str)
        ensures
            s@ == menu_title(self),
    {
        match self {
            Menu::Channel(ch) => if ch == 0 {
                "Channel 1"
            } else if ch == 1 {
                "Channel 2"
            } else {
                "Channel"
            },
            Menu::Horizontal => "Horizontal",
            Menu::Trigger => "Trigger",
            Menu::Acquire => "Acquire",
            Menu::Display => "Display",
            Menu::Measure => "Measure",
            Menu::Math => "Math",
            Menu::Cursor => "Cursors",
            Menu::Utility => "Utility",
            Menu::Record => "Record / Export",
            Menu::Decode => "Decode",
        }
    }
}

/// The dock as data: the open sections in opening order, and the section
/// to scroll into view on the next frame.
pub struct MenuView {
    pub open: Seq<Menu>,
    pub focus: Option<Menu>,
}

/// Which dock sections are expanded, and which asked to be shown.
pub struct MenuState {
    open: Vec<Menu>,
    focus: Option<Menu>,
}

impl View for MenuState {
    type V = MenuView;

    closed spec fn view(&self) -> MenuView {
        MenuView { open: self.open@, focus: self.focus }
    }
}

/// The dock after `m` was toggled: closed where it was open (the others
/// keep their order), opened at the end and given the focus where it was
/// closed.
pub open spec fn toggled(v: MenuView, m: Menu) -> MenuView {
    if v.open.contains(m) {
        MenuView { open: v.open.remove(v.open.index_of(m)), focus: v.focus }
    } else {
        MenuView { open: v.open.push(m), focus: Some(m) }
    }
}

/// The dock after `m` was expanded: added at the end unless it was open.
pub open spec fn opened(v: MenuView, m: Menu) -> MenuView {
    if v.open.contains(m) {
        v
    } else {
        MenuView { open: v.open.push(m), focus: v.focus }
    }
}

impl MenuState {
    /// No section is listed twice.
    #[verifier::type_invariant]
    closed spec fn inv(self) -> bool {
        self.open@.no_duplicates()
    }

    /// The dock a session starts with: the trigger section open.
    pub fn new() -> (s: Self)
        ensures
            s@ == (MenuView { open: seq![Menu::Trigger], focus: None }),
    {
        let mut open = Vec::new();
        open.push(Menu::Trigger);
        MenuState { open, focus: None }
    }

    fn position(&self, m: Menu) -> (i: Option<usize>)
        ensures
            match i {
                Some(i) => i < self@.open.len() && self@.open[i as int] == m && self@.open.contains(
                    m,
                ) && self@.open.index_of(m) == i,
                None => !self@.open.contains(m),
            },
    {
        proof {
            use_type_invariant(self);
        }
        let mut i: usize = 0;
        while i < self.open.len()
            invariant
                i <= self.open@.len(),
                self.open@.no_duplicates(),
                forall|j: int| 0 <= j < i ==> self.open@[j] != m,
            decreases self.open.len() - i,
        {
            if self.open[i] == m {
                assert(self.open@.index_of(m) == i) by {
                    assert(self.open@.contains(m));
                    let x = self.open@.index_of(m);
                    assert(self.open@[x] == m);
                }
                return Some(i);
            }
            i = i + 1;
        }
        None
    }

    /// Whether section `m` is expanded.
    pub fn is_open(&self, m: Menu) -> (b: bool)
        ensures
            b == self@.open.contains(m),
    {
        self.position(m).is_some()
    }

    /// Collapse `m` if it is open; otherwise expand it and ask for it to be
    /// scrolled into view.
    pub fn toggle(&mut self, m: Menu)
        ensures
            final(self)@ == toggled(old(self)@, m),
            final(self)@.open.no_duplicates(),
    {
        proof {
            use_type_invariant(&*self);
        }
        let found = self.position(m);
        let mut open = Vec::new();
        std::mem::swap(&mut open, &mut self.open);
        match found {
            Some(i) => {
                open.remove(i);
                proof {
                    assert(open@.no_duplicates()) by {
                        assert forall|a: int, b: int|
                            0 <= a < b < open@.len() implies open@[a] != open@[b] by {
                            let oa = if a < i { a } else { a + 1 };
                            let ob = if b < i { b } else { b + 1 };
                            assert(open@[a] == old(self)@.open[oa]);
                            assert(open@[b] == old(self)@.open[ob]);
                        }
                    }
                }
                self.open = open;
            },
            None => {
                open.push(m);
                self.open = open;
                self.focus = Some(m);
            },
        }
    }

    /// Ask for section `m` to be expanded and scrolled into view.
    pub fn reveal_section(&mut self, m: Menu)
        ensures
            final(self)@ == (MenuView { open: opened(old(self)@, m).open, focus: Some(m) }),
            final(self)@.open.no_duplicates(),
    {
        self.open(m);
        self.focus = Some(m);
    }

    /// Expand section `m`, keeping the others as they are.
    pub fn open(&mut self, m: Menu)
        ensures
            final(self)@ == opened(old(self)@, m),
            final(self)@.open.no_duplicates(),
    {
        proof {
            use_type_invariant(&*self);
        }
        if !self.is_open(m) {
            let mut open = Vec::new();
            std::mem::swap(&mut open, &mut self.open);
            open.push(m);
            self.open = open;
        }
    }

    /// Whether `m` asked to be scrolled into view; the request is consumed.
    pub fn take_focus(&mut self, m: Menu) -> (asked: bool)
        ensures
            asked == (old(self)@.focus == Some(m)),
            final(self)@.open == old(self)@.open,
            final(self)@.focus == (if asked {
                None
            } else {
                old(self)@.focus
            }),
    {
        proof {
            use_type_invariant(&*self);
        }
        if self.focus == Some(m) {
            self.focus = None;
            true
        } else {
            false
        }
    }

    /// Exactly this section open (`None`: all collapsed), so layout dumps
    /// stay deterministic.
    pub fn set_exclusive(&mut self, m: Option<Menu>)
        ensures
            final(self)@.open == (match m {
                Some(m) => seq![m],
                None => Seq::<Menu>::empty(),
            }),
            final(self)@.focus == old(self)@.focus,
            final(self)@.open.no_duplicates(),
    {
        let mut open = Vec::new();
        if let Some(m) = m {
            open.push(m);
        }
        assert(open@.no_duplicates());
        self.open = open;
    }

    /// The open sections, in opening order (for the layout dump).
    pub fn open_list(&self) -> (l: &[Menu])
        ensures
            l@ == self@.open,
    {
        self.open.as_slice()
    }
}

impl Default for MenuState {
    fn default() -> (s: Self)
        ensures
            s@ == (MenuView { open: seq![Menu::Trigger], focus: None }),
    {
        MenuState::new()
    }
}

/// Toggling flips whether a section is open and leaves every other section
/// as it was; toggling a closed section twice restores the open list.
pub proof fn lemma_toggle_flips_one_section(v: MenuView, m: Menu, other: Menu)
    requires
        v.open.no_duplicates(),
        other != m,
    ensures
        toggled(v, m).open.contains(m) == !v.open.contains(m),
        toggled(v, m).open.contains(other) == v.open.contains(other),
        !v.open.contains(m) ==> toggled(toggled(v, m), m).open == v.open,
{
    if v.open.contains(m) {
        let i = v.open.index_of(m);
        let w = v.open.remove(i);
        assert(!w.contains(m)) by {
            if w.contains(m) {
                let j = choose|j: int| 0 <= j < w.len() && w[j] == m;
                let oj = if j < i { j } else { j + 1 };
                assert(v.open[oj] == m);
            }
        }
        if v.open.contains(other) {
            let k = choose|k: int| 0 <= k < v.open.len() && v.open[k] == other;
            assert(k != i);
            let wk = if k < i { k } else { k - 1 };
            assert(w[wk] == other);
        }
        if w.contains(other) {
            let j = choose|j: int| 0 <= j < w.len() && w[j] == other;
            let oj = if j < i { j } else { j + 1 };
            assert(v.open[oj] == other);
        }
    } else {
        let w = v.open.push(m);
        assert(w[w.len() - 1] == m);
        if v.open.contains(other) {
            let k = choose|k: int| 0 <= k < v.open.len() && v.open[k] == other;
            assert(w[k] == other);
        }
        if w.contains(other) {
            let j = choose|j: int| 0 <= j < w.len() && w[j] == other;
            assert(j < v.open.len());
            assert(v.open[j] == other);
        }
        assert(w.contains(m));
        assert(w.index_of(m) == w.len() - 1) by {
            assert(w.contains(m));
            let x = w.index_of(m);
            if x < w.len() - 1 {
                assert(v.open[x] == m);
            }
        }
        assert(w.remove(w.len() - 1) =~= v.open);
    }
}

/// Expanding a section is idempotent and opens it.
pub proof fn lemma_open_is_idempotent(v: MenuView, m: Menu)
    ensures
        opened(opened(v, m), m) == opened(v, m),
        opened(v, m).open.contains(m),
{
    if !v.open.contains(m) {
        assert(opened(v, m).open[v.open.len() as int] == m);
    }
}

} // verus!
