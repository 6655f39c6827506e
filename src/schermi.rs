use vstd::prelude::*;

verus! {

/// The displays a capture can come from, by id, with the one picked in the
/// options and the one the window was first shown on.
pub struct Schermi {
    screens: Vec<u32>,
    screen_no: usize,
    default_screen_no: usize,
}

pub struct SchermiView {
    pub screens: Seq<u32>,
    pub screen_no: usize,
    pub default_screen_no: usize,
}

impl View for Schermi {
    type V = SchermiView;

    closed spec fn view(&self) -> SchermiView {
        SchermiView {
            screens: self.screens@,
            screen_no: self.screen_no,
            default_screen_no: self.default_screen_no,
        }
    }
}

/// The first position of display `id` in `screens`, if it is there.
pub open spec fn position_of(screens: Seq<u32>, id: u32) -> Option<int> {
    if exists|k: int| 0 <= k < screens.len() && screens[k] == id {
        Some(
            choose|k: int|
                0 <= k < screens.len() && screens[k] == id && forall|j: int|
                    0 <= j < k ==> screens[j] != id,
        )
    } else {
        None
    }
}

impl Schermi {
    /// Both picks name a listed display.
    pub open spec fn wf(&self) -> bool {
        self@.screen_no < self@.screens.len() && self@.default_screen_no < self@.screens.len()
    }

    /// Starts with the listed displays, the first one picked.
    pub fn new(screens: Vec<u32>) -> (r: Self)
        requires
            screens@.len() > 0,
        ensures
            r.wf(),
            r@ == (SchermiView { screens: screens@, screen_no: 0, default_screen_no: 0 }),
    {
        Schermi { screens, screen_no: 0, default_screen_no: 0 }
    }

    /// Records that the window sits on display `found`, when that display is
    /// listed: it becomes both the picked and the first-shown display.
    pub fn set_screen_no(&mut self, found: u32)
        requires
            old(self).wf(),
        ensures
            final(self).wf(),
            final(self)@ == match position_of(old(self)@.screens, found) {
                Some(k) => SchermiView {
                    screen_no: k as usize,
                    default_screen_no: k as usize,
                    ..old(self)@
                },
                None => old(self)@,
            },
    {
        let mut i: usize = 0;
        while i < self.screens.len()
            invariant
                0 <= i <= self.screens@.len(),
                *self == *old(self),
                forall|j: int| 0 <= j < i ==> self.screens@[j] != found,
            decreases self.screens@.len() - i,
        {
            if self.screens[i] == found {
                proof {
                    let k = i as int;
                    assert(self.screens@[k] == found);
                    let c = choose|c: int|
                        0 <= c < self.screens@.len() && self.screens@[c] == found && forall|j: int|
                            0 <= j < c ==> self.screens@[j] != found;
                    assert(c == k) by {
                        if c < k {
                            assert(self.screens@[c] != found);
                        }
                        if c > k {
                            assert(self.screens@[k] != found);
                        }
                    }
                }
                self.screen_no = i;
                self.default_screen_no = i;
                return;
            }
            i += 1;
        }
    }

    pub fn no_screens(&self) -> (r: usize)
        ensures
            r == self@.screens.len(),
    {
        self.screens.len()
    }

    /// Picks display number `no` in the options.
    pub fn select_screen(&mut self, no: usize)
        requires
            old(self).wf(),
            no < old(self)@.screens.len(),
        ensures
            final(self).wf(),
            final(self)@ == (SchermiView { screen_no: no, ..old(self)@ }),
    {
        self.screen_no = no;
    }

    pub fn screen_no(&self) -> (r: usize)
        ensures
            r == self@.screen_no,
    {
        self.screen_no
    }

    /// Whether the picked display is the one the window was first shown on;
    /// a selection rectangle can only be drawn there.
    pub fn on_default_screen(&self) -> (r: bool)
        ensures
            r == (self@.screen_no == self@.default_screen_no),
    {
        self.screen_no == self.default_screen_no
    }

    /// The id of the picked display.
    pub fn get_screen(&self) -> (r: u32)
        requires
            self.wf(),
        ensures
            r == self@.screens[self@.screen_no as int],
    {
        self.screens[self.screen_no]
    }

    /// The id of the display the window was first shown on.
    pub fn get_default_screen(&self) -> (r: u32)
        requires
            self.wf(),
        ensures
            r == self@.screens[self@.default_screen_no as int],
    {
        self.screens[self.default_screen_no]
    }
}

} // verus!
