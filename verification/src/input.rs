//! The keyboard part of the per-frame input snapshot: which logical keys
//! are held, filled from key press and release events.

use vstd::prelude::*;

verus! {

/// A logical key: a named key (by name), the text a key produces, a key the
/// platform could not identify (by its native code's text), or a dead key.
#[derive(Clone, Debug)]
pub enum Key {
    Named(String),
    Character(String),
    Unidentified(String),
    Dead(Option<char>),
}

/// The mathematical value of a key.
pub enum KeyView {
    Named(Seq<char>),
    Character(Seq<char>),
    Unidentified(Seq<char>),
    Dead(Option<char>),
}

impl View for Key {
    type V = KeyView;

    open spec fn view(&self) -> KeyView {
        match self {
            Key::Named(s) => KeyView::Named(s@),
            Key::Character(s) => KeyView::Character(s@),
            Key::Unidentified(s) => KeyView::Unidentified(s@),
            Key::Dead(c) => KeyView::Dead(*c),
        }
    }
}

/// Whether two keys are the same logical key.
pub fn key_eq(x: &Key, y: &Key) -> (r: bool)
    ensures
        r == (x@ == y@),
{
    match (x, y) {
        (Key::Named(s), Key::Named(t)) => *s == *t,
        (Key::Character(s), Key::Character(t)) => *s == *t,
        (Key::Unidentified(s), Key::Unidentified(t)) => *s == *t,
        (Key::Dead(c), Key::Dead(d)) => match (c, d) {
            (Some(a), Some(b)) => *a == *b,
            (None, None) => true,
            _ => false,
        },
        _ => false,
    }
}

/// The held keys.
pub struct Input {
    keys_down: Vec<Key>,
}

impl View for Input {
    type V = Set<KeyView>;

    closed spec fn view(&self) -> Set<KeyView> {
        self.keys_down@.map_values(|k: Key| k@).to_set()
    }
}

impl Input {
    /// No key is listed twice.
    pub closed spec fn wf(&self) -> bool {
        forall|i: int, j: int|
            0 <= i < j < self.keys_down.len() ==> #[trigger] self.keys_down@[i]@ != #[trigger] self.keys_down@[j]@
    }

    /// No key held.
    pub fn new() -> (s: Self)
        ensures
            s.wf(),
            s@ == Set::<KeyView>::empty(),
    {
        let s = Input { keys_down: Vec::new() };
        assert(s@ =~= Set::<KeyView>::empty());
        s
    }

    fn position(&self, key: &Key) -> (r: Option<usize>)
        ensures
            match r {
                Some(i) => i < self.keys_down.len() && self.keys_down@[i as int]@ == key@,
                None => forall|i: int| 0 <= i < self.keys_down.len() ==> self.keys_down@[i]@ != key@,
            },
    {
        let mut i: usize = 0;
        while i < self.keys_down.len()
            invariant
                i <= self.keys_down.len(),
                forall|j: int| 0 <= j < i ==> self.keys_down@[j]@ != key@,
            decreases self.keys_down.len() - i,
        {
            if key_eq(&self.keys_down[i], key) {
                return Some(i);
            }
            i += 1;
        }
        None
    }

    proof fn lemma_view_contains(&self, v: KeyView)
        ensures
            self@.contains(v) <==> exists|i: int| 0 <= i < self.keys_down.len() && self.keys_down@[i]@ == v,
    {
        let s = self.keys_down@.map_values(|k: Key| k@);
        if self@.contains(v) {
            let i = choose|i: int| 0 <= i < s.len() && s[i] == v;
            assert(self.keys_down@[i]@ == v);
        }
        if exists|i: int| 0 <= i < self.keys_down.len() && self.keys_down@[i]@ == v {
            let i = choose|i: int| 0 <= i < self.keys_down.len() && self.keys_down@[i]@ == v;
            assert(s[i] == v);
            assert(s.contains(v));
        }
    }

    /// Whether `key` is held.
    pub fn is_pressed(&self, key: Key) -> (b: bool)
        ensures
            b == self@.contains(key@),
    {
        proof {
            self.lemma_view_contains(key@);
        }
        self.position(&key).is_some()
    }

    /// Whether the named key `name` is held.
    pub fn is_pressed_named(&self, name: &str) -> (b: bool)
        ensures
            b == self@.contains(KeyView::Named(name@)),
    {
        let key = Key::Named(String::from_str(name));
        self.is_pressed(key)
    }

    /// Whether the key producing the character `c` is held.
    pub fn is_pressed_char(&self, c: char) -> (b: bool)
        ensures
            b == self@.contains(KeyView::Character(seq![c])),
    {
        proof {
            self.lemma_view_contains(KeyView::Character(seq![c]));
        }
        let mut i: usize = 0;
        while i < self.keys_down.len()
            invariant
                i <= self.keys_down.len(),
                forall|j: int| 0 <= j < i ==> self.keys_down@[j]@ != KeyView::Character(seq![c]),
            decreases self.keys_down.len() - i,
        {
            match &self.keys_down[i] {
                Key::Character(s) => {
                    let t = s.as_str();
                    if t.unicode_len() == 1 && t.get_char(0) == c {
                        assert(t@ =~= seq![c]);
                        assert(self.keys_down@[i as int]@ == KeyView::Character(seq![c]));
                        proof {
                            self.lemma_view_contains(KeyView::Character(seq![c]));
                        }
                        return true;
                    }
                    assert(t@ != seq![c]);
                },
                _ => {},
            }
            i += 1;
        }
        false
    }

    /// A key went down: it is held from now on.
    pub fn key_pressed(&mut self, key: Key)
        requires
            old(self).wf(),
        ensures
            final(self).wf(),
            final(self)@ == old(self)@.insert(key@),
    {
        proof {
            self.lemma_view_contains(key@);
        }
        match self.position(&key) {
            Some(_) => {
                assert(self@ =~= old(self)@.insert(key@));
            },
            None => {
                let ghost before = *self;
                let ghost kv = key@;
                self.keys_down.push(key);
                proof {
                    assert(self.keys_down@[self.keys_down.len() - 1]@ == kv);
                    assert forall|i: int, j: int|
                        0 <= i < j < self.keys_down.len() implies #[trigger] self.keys_down@[i]@
                        != #[trigger] self.keys_down@[j]@ by {
                        assert(self.keys_down@[i] == before.keys_down@[i]);
                        if j < before.keys_down.len() {
                            assert(self.keys_down@[j] == before.keys_down@[j]);
                        }
                    }
                    assert forall|v: KeyView| #[trigger] self@.contains(v) == before@.insert(kv).contains(v) by {
                        self.lemma_view_contains(v);
                        before.lemma_view_contains(v);
                        if exists|i: int| 0 <= i < before.keys_down.len() && before.keys_down@[i]@ == v {
                            let i = choose|i: int| 0 <= i < before.keys_down.len() && before.keys_down@[i]@ == v;
                            assert(self.keys_down@[i] == before.keys_down@[i]);
                        }
                        if exists|i: int| 0 <= i < self.keys_down.len() && self.keys_down@[i]@ == v {
                            let i = choose|i: int| 0 <= i < self.keys_down.len() && self.keys_down@[i]@ == v;
                            if i < before.keys_down.len() {
                                assert(self.keys_down@[i] == before.keys_down@[i]);
                            }
                        }
                    }
                    assert(self@ =~= before@.insert(kv));
                }
            },
        }
    }

    /// A key went up: it is no longer held.
    pub fn key_released(&mut self, key: Key)
        requires
            old(self).wf(),
        ensures
            final(self).wf(),
            final(self)@ == old(self)@.remove(key@),
    {
        proof {
            self.lemma_view_contains(key@);
        }
        match self.position(&key) {
            Some(i) => {
                let ghost before = *self;
                let ghost kv = key@;
                self.keys_down.remove(i);
                proof {
                    assert forall|p: int, q: int|
                        0 <= p < q < self.keys_down.len() implies #[trigger] self.keys_down@[p]@
                        != #[trigger] self.keys_down@[q]@ by {
                        let pp = if p < i { p } else { p + 1 };
                        let qq = if q < i { q } else { q + 1 };
                        assert(self.keys_down@[p] == before.keys_down@[pp]);
                        assert(self.keys_down@[q] == before.keys_down@[qq]);
                    }
                    assert forall|v: KeyView| #[trigger] self@.contains(v) == before@.remove(kv).contains(v) by {
                        self.lemma_view_contains(v);
                        before.lemma_view_contains(v);
                        if exists|j: int| 0 <= j < before.keys_down.len() && before.keys_down@[j]@ == v {
                            let j = choose|j: int| 0 <= j < before.keys_down.len() && before.keys_down@[j]@ == v;
                            if j < i {
                                assert(self.keys_down@[j] == before.keys_down@[j]);
                            } else if j > i {
                                assert(self.keys_down@[j - 1] == before.keys_down@[j]);
                            }
                        }
                        if exists|j: int| 0 <= j < self.keys_down.len() && self.keys_down@[j]@ == v {
                            let j = choose|j: int| 0 <= j < self.keys_down.len() && self.keys_down@[j]@ == v;
                            let jj = if j < i { j } else { j + 1 };
                            assert(self.keys_down@[j] == before.keys_down@[jj]);
                            if v == kv {
                                if jj < i {
                                    assert(before.keys_down@[jj]@ != before.keys_down@[i as int]@);
                                } else {
                                    assert(before.keys_down@[i as int]@ != before.keys_down@[jj]@);
                                }
                            }
                        }
                    }
                    assert(self@ =~= before@.remove(kv));
                }
            },
            None => {
                assert(self@ =~= old(self)@.remove(key@));
            },
        }
    }
}

/// The name of the key that closes the application.
pub open spec fn escape_name() -> Seq<char> {
    "Escape"@
}

impl Input {
    /// Handle a keyboard event: a press holds the key, a release lets it
    /// go; returns whether the event asks to close the application (Escape
    /// pressed).
    pub fn on_key_event(&mut self, key: Key, pressed: bool) -> (exit: bool)
        requires
            old(self).wf(),
        ensures
            final(self).wf(),
            pressed ==> final(self)@ == old(self)@.insert(key@),
            !pressed ==> final(self)@ == old(self)@.remove(key@),
            exit == (pressed && key@ == KeyView::Named(escape_name())),
    {
        let escape = Key::Named(String::from_str("Escape"));
        let is_escape = key_eq(&key, &escape);
        if pressed {
            self.key_pressed(key);
        } else {
            self.key_released(key);
        }
        pressed && is_escape
    }
}

/// Pressing a key makes it held and releasing it makes it not held; either
/// leaves every other key as it was.
pub proof fn law_press_release(held: Set<KeyView>, key: KeyView, other: KeyView)
    requires
        other != key,
    ensures
        held.insert(key).contains(key),
        !held.remove(key).contains(key),
        held.insert(key).contains(other) == held.contains(other),
        held.remove(key).contains(other) == held.contains(other),
        held.insert(key).remove(key) == held.remove(key),
{
    assert(held.insert(key).remove(key) =~= held.remove(key));
}

} // verus!
