use crate::button::Button;
use vstd::arithmetic::div_mod::lemma_add_mod_noop;
use vstd::prelude::*;
use vstd::string::StringExecFns;

verus! {

/// An ordered list of buttons, at most one of which has keyboard focus.
/// A button's index in the list is its handle.
pub struct Screen {
    buttons: Vec<Button>,
    focused_index: Option<usize>,
}

/// The focus flags agree with the focus record: only the recorded button,
/// if any, is flagged.
pub open spec fn focus_consistent(buttons: Seq<Button>, focus: Option<usize>) -> bool {
    &&& forall|j: int| 0 <= j < buttons.len() && buttons[j].focused ==> focus == Some(j as usize)
    &&& focus matches Some(i) ==> i < buttons.len() && buttons[i as int].focused
}

/// `buttons` with only the focus flag of the button at `i` replaced by `f`.
pub open spec fn with_flag(buttons: Seq<Button>, i: int, f: bool) -> Seq<Button> {
    buttons.update(i, Button { focused: f, ..buttons[i] })
}

/// `buttons` with the flag of the button recorded in `focus`, if any, cleared.
pub open spec fn unflag(buttons: Seq<Button>, focus: Option<usize>) -> Seq<Button> {
    match focus {
        Some(i) => with_flag(buttons, i as int, false),
        None => buttons,
    }
}

/// Index that `focus_next` moves to among `n > 0` buttons.
pub open spec fn next_index(focus: Option<usize>, n: nat) -> nat {
    match focus {
        Some(i) => ((i + 1) % (n as int)) as nat,
        None => 0,
    }
}

/// Index that `focus_prev` moves to among `n > 0` buttons.
pub open spec fn prev_index(focus: Option<usize>, n: nat) -> nat {
    match focus {
        Some(i) => if i == 0 {
            (n - 1) as nat
        } else {
            (i - 1) as nat
        },
        None => (n - 1) as nat,
    }
}

/// `i` is the first index of `buttons` whose mnemonic answers `key`.
pub open spec fn first_match(buttons: Seq<Button>, key: char, i: int) -> bool {
    &&& 0 <= i < buttons.len()
    &&& buttons[i].answers(key)
    &&& forall|j: int| 0 <= j < i ==> !buttons[j].answers(key)
}

/// Concatenated frames of `buttons`, in order.
pub open spec fn frames(buttons: Seq<Button>) -> Seq<char>
    decreases buttons.len(),
{
    if buttons.len() == 0 {
        Seq::empty()
    } else {
        frames(buttons.drop_last()) + buttons.last().frame()
    }
}

/// The escape sequence that clears the whole terminal and homes the cursor.
pub open spec fn clear_all() -> Seq<char> {
    "\x1B[2J\x1B[H"@
}

impl Screen {
    /// The buttons, in insertion order.
    pub closed spec fn spec_buttons(&self) -> Seq<Button> {
        self.buttons@
    }

    /// Index of the focused button, if any.
    pub closed spec fn spec_focused(&self) -> Option<usize> {
        self.focused_index
    }

    /// Whether the focus flags of the buttons agree with the focus record.
    pub open spec fn consistent(&self) -> bool {
        focus_consistent(self.spec_buttons(), self.spec_focused())
    }

    /// The focus record names a button of the list, if any, and that button
    /// is flagged as focused.
    pub open spec fn wf(&self) -> bool {
        self.spec_focused() matches Some(i) ==> i < self.spec_buttons().len()
            && self.spec_buttons()[i as int].focused
    }

    /// An empty screen with nothing focused.
    pub fn new() -> (s: Self)
        ensures
            s.spec_buttons() == Seq::<Button>::empty(),
            s.spec_focused() is None,
            s.wf(),
            s.consistent(),
    {
        Screen { buttons: Vec::new(), focused_index: None }
    }

    /// Appends `button` and returns its index.
    pub fn add_button(&mut self, button: Button) -> (i: usize)
        requires
            old(self).wf(),
            old(self).spec_buttons().len() < usize::MAX,
        ensures
            final(self).wf(),
            final(self).spec_buttons() == old(self).spec_buttons().push(button),
            final(self).spec_focused() == old(self).spec_focused(),
            i == old(self).spec_buttons().len(),
            old(self).consistent() && !button.focused ==> final(self).consistent(),
    {
        self.buttons.push(button);
        self.buttons.len() - 1
    }

    /// Moves focus forward, wrapping after the last button; the first button
    /// when nothing was focused. Does nothing on an empty screen.
    pub fn focus_next(&mut self)
        requires
            old(self).wf(),
        ensures
            final(self).wf(),
            old(self).consistent() ==> final(self).consistent(),
            old(self).spec_buttons().len() == 0 ==> *final(self) == *old(self),
            old(self).spec_buttons().len() > 0 ==> ({
                let n = old(self).spec_buttons().len();
                let k = next_index(old(self).spec_focused(), n);
                &&& final(self).spec_focused() == Some(k as usize)
                &&& final(self).spec_buttons() == with_flag(
                    unflag(old(self).spec_buttons(), old(self).spec_focused()),
                    k as int,
                    true,
                )
            }),
    {
        if self.buttons.len() == 0 {
            return;
        }
        if let Some(idx) = self.focused_index {
            self.buttons[idx].focused = false;
        }
        let next: usize = match self.focused_index {
            None => 0,
            Some(idx) => (idx + 1) % self.buttons.len(),
        };
        self.focused_index = Some(next);
        self.buttons[next].focused = true;
        proof {
            let k = next_index(old(self).spec_focused(), old(self).spec_buttons().len());
            assert(self.buttons@ =~= with_flag(
                unflag(old(self).spec_buttons(), old(self).spec_focused()),
                k as int,
                true,
            ));
        }
    }

    /// Moves focus backward, wrapping before the first button; the last
    /// button when nothing was focused. Does nothing on an empty screen.
    pub fn focus_prev(&mut self)
        requires
            old(self).wf(),
        ensures
            final(self).wf(),
            old(self).consistent() ==> final(self).consistent(),
            old(self).spec_buttons().len() == 0 ==> *final(self) == *old(self),
            old(self).spec_buttons().len() > 0 ==> ({
                let n = old(self).spec_buttons().len();
                let k = prev_index(old(self).spec_focused(), n);
                &&& final(self).spec_focused() == Some(k as usize)
                &&& final(self).spec_buttons() == with_flag(
                    unflag(old(self).spec_buttons(), old(self).spec_focused()),
                    k as int,
                    true,
                )
            }),
    {
        if self.buttons.len() == 0 {
            return;
        }
        if let Some(idx) = self.focused_index {
            self.buttons[idx].focused = false;
        }
        let prev: usize = match self.focused_index {
            None => self.buttons.len() - 1,
            Some(0) => self.buttons.len() - 1,
            Some(idx) => idx - 1,
        };
        self.focused_index = Some(prev);
        self.buttons[prev].focused = true;
        proof {
            let k = prev_index(old(self).spec_focused(), old(self).spec_buttons().len());
            assert(self.buttons@ =~= with_flag(
                unflag(old(self).spec_buttons(), old(self).spec_focused()),
                k as int,
                true,
            ));
        }
    }

    /// Focuses the first button, in insertion order, whose mnemonic answers
    /// `key`, and returns true; returns false and leaves the screen as it
    /// was when no button answers.
    pub fn focus_by_key(&mut self, key: char) -> (r: bool)
        requires
            old(self).wf(),
        ensures
            final(self).wf(),
            old(self).consistent() ==> final(self).consistent(),
            r == exists|j: int|
                0 <= j < old(self).spec_buttons().len() && old(self).spec_buttons()[j].answers(key),
            r ==> (final(self).spec_focused() matches Some(i) && first_match(
                old(self).spec_buttons(),
                key,
                i as int,
            ) && final(self).spec_buttons() == with_flag(
                unflag(old(self).spec_buttons(), old(self).spec_focused()),
                i as int,
                true,
            )),
            !r ==> final(self).spec_buttons() == old(self).spec_buttons()
                && final(self).spec_focused() == old(self).spec_focused(),
    {
        if let Some(idx) = self.focused_index {
            self.buttons[idx].focused = false;
        }
        let ghost cleared = self.buttons@;
        assert(cleared == unflag(old(self).spec_buttons(), old(self).spec_focused()));
        let mut i: usize = 0;
        while i < self.buttons.len()
            invariant
                self.buttons@ == cleared,
                self.focused_index == old(self).focused_index,
                cleared == unflag(old(self).spec_buttons(), old(self).spec_focused()),
                old(self).wf(),
                i <= self.buttons.len(),
                forall|j: int| 0 <= j < i ==> !old(self).spec_buttons()[j].answers(key),
            decreases self.buttons.len() - i,
        {
            if self.buttons[i].matches_key(key) {
                self.buttons[i].focused = true;
                self.focused_index = Some(i);
                assert(self.buttons@ =~= with_flag(cleared, i as int, true));
                return true;
            }
            i = i + 1;
        }
        if let Some(idx) = self.focused_index {
            self.buttons[idx].focused = true;
        }
        assert(self.buttons@ =~= old(self).buttons@);
        false
    }

    /// Index of the focused button, if any.
    pub fn get_focused(&self) -> (r: Option<usize>)
        ensures
            r == self.spec_focused(),
    {
        self.focused_index
    }

    /// The buttons, in insertion order.
    pub fn buttons(&self) -> (r: &[Button])
        ensures
            r@ == self.spec_buttons(),
    {
        self.buttons.as_slice()
    }

    /// The escape sequences that draw every button in insertion order, so
    /// that later buttons paint over earlier ones.
    pub fn draw(&self) -> (r: String)
        ensures
            r@ == frames(self.spec_buttons()),
    {
        let mut out = String::new();
        let mut i: usize = 0;
        while i < self.buttons.len()
            invariant
                i <= self.buttons.len(),
                out@ == frames(self.buttons@.subrange(0, i as int)),
            decreases self.buttons.len() - i,
        {
            let frame = self.buttons[i].draw();
            out.append(frame.as_str());
            proof {
                let next = self.buttons@.subrange(0, i + 1);
                assert(next.drop_last() =~= self.buttons@.subrange(0, i as int));
            }
            i = i + 1;
        }
        assert(self.buttons@.subrange(0, i as int) =~= self.buttons@);
        out
    }

    /// The escape sequence that clears the terminal and homes the cursor.
    pub fn clear(&self) -> (r: String)
        ensures
            r@ == clear_all(),
    {
        String::from_str("\x1B[2J\x1B[H")
    }
}

/// Focus record after `t` consecutive `focus_next` calls on `n > 0` buttons,
/// starting from `focus`.
pub open spec fn focus_after_nexts(focus: Option<usize>, n: nat, t: nat) -> Option<usize>
    decreases t,
{
    if t == 0 {
        focus
    } else {
        Some(next_index(focus_after_nexts(focus, n, (t - 1) as nat), n) as usize)
    }
}

/// From a consistent state with a focused button, moving focus forward and
/// then back returns it to that button and leaves every flag as it was.
pub proof fn lemma_next_then_prev(buttons: Seq<Button>, i: usize)
    requires
        buttons.len() <= usize::MAX,
        focus_consistent(buttons, Some(i)),
    ensures
        ({
            let n = buttons.len();
            let k = next_index(Some(i), n);
            let after_next = with_flag(unflag(buttons, Some(i)), k as int, true);
            let back = prev_index(Some(k as usize), n);
            &&& back == i
            &&& with_flag(unflag(after_next, Some(k as usize)), back as int, true) == buttons
        }),
{
    let n = buttons.len();
    let k = next_index(Some(i), n);
    if i + 1 < n {
        assert((i + 1) % (n as int) == i + 1) by (nonlinear_arith)
            requires
                0 <= i + 1 < n,
        ;
    } else {
        assert((n as int) % (n as int) == 0) by (nonlinear_arith)
            requires
                n > 0,
        ;
    }
    let after_next = with_flag(unflag(buttons, Some(i)), k as int, true);
    let back = prev_index(Some(k as usize), n);
    let result = with_flag(unflag(after_next, Some(k as usize)), back as int, true);
    assert forall|j: int| 0 <= j < n implies result[j] == buttons[j] by {
        let b = buttons[j];
        if j == i {
            assert(b.focused);
        } else if j == k {
            assert(!b.focused);
        }
        assert(result[j].focused == b.focused);
    }
    assert(result =~= buttons);
}

/// Starting with nothing focused, `t >= 1` calls of `focus_next` on `n`
/// buttons leave focus on index `(t - 1) mod n`: the first call focuses the
/// first button and every `n` further calls come back to it.
pub proof fn lemma_nexts_from_none(n: nat, t: nat)
    requires
        0 < n <= usize::MAX,
        0 < t,
    ensures
        focus_after_nexts(None, n, t) == Some(((t - 1) % (n as int)) as usize),
    decreases t,
{
    if t > 1 {
        lemma_nexts_from_none(n, (t - 1) as nat);
        lemma_step_mod(t - 2, n as int);
        lemma_step_mod(t - 1, n as int);
        let m = ((t - 2) % (n as int)) as usize;
        assert(m as int == (t - 2) % (n as int));
        assert(focus_after_nexts(None, n, (t - 1) as nat) == Some(m));
        assert(next_index(Some(m), n) == ((t - 1) % (n as int)) as nat);
    } else {
        assert(0int % (n as int) == 0) by (nonlinear_arith)
            requires
                n > 0,
        ;
    }
}

/// From a focused index `i`, `t` calls of `focus_next` on `n` buttons leave
/// focus on `(i + t) mod n`; in particular `n` calls return to `i`.
pub proof fn lemma_nexts_from_index(n: nat, i: usize, t: nat)
    requires
        i < n <= usize::MAX,
    ensures
        focus_after_nexts(Some(i), n, t) == Some(((i + t) % (n as int)) as usize),
        focus_after_nexts(Some(i), n, n) == Some(i),
{
    lemma_nexts_offset(n, i, t);
    lemma_nexts_offset(n, i, n);
    assert((i + n) % (n as int) == i) by (nonlinear_arith)
        requires
            0 <= i < n,
    ;
}

proof fn lemma_nexts_offset(n: nat, i: usize, t: nat)
    requires
        i < n <= usize::MAX,
    ensures
        focus_after_nexts(Some(i), n, t) == Some(((i + t) % (n as int)) as usize),
    decreases t,
{
    if t == 0 {
        assert((i as int) % (n as int) == i) by (nonlinear_arith)
            requires
                0 <= i < n,
        ;
    } else {
        lemma_nexts_offset(n, i, (t - 1) as nat);
        lemma_step_mod(i + t - 1, n as int);
        lemma_step_mod(i + t, n as int);
    }
}

/// One more step of the wrap-around counter.
proof fn lemma_step_mod(a: int, n: int)
    requires
        0 <= a,
        0 < n,
    ensures
        ((a % n) + 1) % n == (a + 1) % n,
        0 <= a % n < n,
{
    lemma_add_mod_noop(a, 1, n);
    if n == 1 {
        assert(a % 1 == 0 && (a + 1) % 1 == 0) by (nonlinear_arith);
    } else {
        assert(1int % n == 1) by (nonlinear_arith)
            requires
                n > 1,
        ;
    }
}

} // verus!
