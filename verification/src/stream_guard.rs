//! Holds streamed text back while it may still turn out to be tool markup.
use vstd::prelude::*;

use crate::text::{
    is_space, law_trim_start_drops_white_space, put, starts_with_text, text, trim_start,
    trim_start_text,
};

verus! {

/// Streamed text that begins with `<` is held back until the whole is known.
#[derive(Debug)]
pub struct StreamGuard {
    held: String,
    open: bool,
}

/// The model of a [`StreamGuard`].
#[verifier::ext_equal]
pub struct StreamGuardV {
    /// What is held back.
    pub held: Seq<char>,
    /// Whether text goes through.
    pub open: bool,
}

impl View for StreamGuard {
    type V = StreamGuardV;

    closed spec fn view(&self) -> StreamGuardV {
        StreamGuardV { held: self.held@, open: self.open }
    }
}

/// Whether a text may turn out to be tool markup: it is blank so far, or begins
/// with `<`.
pub open spec fn may_be_markup(s: Seq<char>) -> bool {
    trim_start(s).len() == 0 || trim_start(s)[0] == '<'
}

impl StreamGuardV {
    /// A guard that saw nothing.
    pub open spec fn initial() -> StreamGuardV {
        StreamGuardV { held: seq![], open: false }
    }

    /// The guard after a piece.
    pub open spec fn after(self, piece: Seq<char>) -> StreamGuardV {
        if self.open {
            self
        } else if may_be_markup(self.held + piece) {
            StreamGuardV { held: self.held + piece, open: false }
        } else {
            StreamGuardV { held: seq![], open: true }
        }
    }

    /// What goes through at a piece.
    pub open spec fn passes(self, piece: Seq<char>) -> Seq<char> {
        if self.open {
            piece
        } else if may_be_markup(self.held + piece) {
            seq![]
        } else {
            self.held + piece
        }
    }

    /// The guard after several pieces.
    pub open spec fn after_all(self, pieces: Seq<Seq<char>>) -> StreamGuardV
        decreases pieces.len(),
    {
        if pieces.len() == 0 {
            self
        } else {
            self.after_all(pieces.drop_last()).after(pieces.last())
        }
    }

    /// What goes through at several pieces, put together.
    pub open spec fn passed(self, pieces: Seq<Seq<char>>) -> Seq<char>
        decreases pieces.len(),
    {
        if pieces.len() == 0 {
            seq![]
        } else {
            self.passed(pieces.drop_last()) + self.after_all(pieces.drop_last()).passes(
                pieces.last(),
            )
        }
    }
}

/// Pieces put together.
pub open spec fn whole(pieces: Seq<Seq<char>>) -> Seq<char>
    decreases pieces.len(),
{
    if pieces.len() == 0 {
        seq![]
    } else {
        whole(pieces.drop_last()) + pieces.last()
    }
}

impl StreamGuard {
    /// A guard that saw nothing.
    pub fn new() -> (r: Self)
        ensures
            r@ == StreamGuardV::initial(),
    {
        let r = StreamGuard { held: String::new(), open: false };
        proof {
            assert(r@ =~= StreamGuardV::initial());
        }
        r
    }

    /// Takes a piece in; what goes through.
    pub fn on_delta(&mut self, piece: &str) -> (r: String)
        ensures
            final(self)@ == old(self)@.after(piece@),
            r@ == old(self)@.passes(piece@),
    {
        if self.open {
            return text(piece);
        }
        put(&mut self.held, piece);
        let start = trim_start_text(self.held.as_str());
        proof {
            let t = start@;
            reveal_strlit("<");
            if t.len() > 0 {
                assert(t.subrange(0, 1) =~= seq![t[0]]);
                assert("<"@ =~= seq!['<']);
                assert(seq![t[0]][0] == t[0]);
            }
        }
        if start.as_str().is_empty() || starts_with_text(start.as_str(), "<") {
            let none = String::new();
            proof {
                assert(none@ =~= Seq::<char>::empty());
            }
            return none;
        }
        let mut out = String::new();
        core::mem::swap(&mut out, &mut self.held);
        self.open = true;
        proof {
            assert(self@ =~= old(self)@.after(piece@));
        }
        out
    }

    /// What is held back.
    pub fn held(&self) -> (r: &str)
        ensures
            r@ == self@.held,
    {
        self.held.as_str()
    }
}

/// Nothing is lost: what went through and what is held back are, in this order,
/// all that came.
pub proof fn law_nothing_is_lost(pieces: Seq<Seq<char>>)
    ensures
        StreamGuardV::initial().passed(pieces) + StreamGuardV::initial().after_all(pieces).held
            == whole(pieces),
        StreamGuardV::initial().after_all(pieces).open
            ==> StreamGuardV::initial().after_all(pieces).held.len() == 0,
        !StreamGuardV::initial().after_all(pieces).open
            ==> StreamGuardV::initial().passed(pieces).len() == 0,
    decreases pieces.len(),
{
    let g = StreamGuardV::initial();
    if pieces.len() > 0 {
        law_nothing_is_lost(pieces.drop_last());
        let before = g.after_all(pieces.drop_last());
        assert(g.passed(pieces) + g.after_all(pieces).held =~= whole(pieces.drop_last())
            + pieces.last());
    } else {
        assert(g.passed(pieces) + g.after_all(pieces).held =~= whole(pieces));
    }
}

/// Text that may be tool markup is not shown: nothing went through as long as all
/// that came may be markup.
pub proof fn law_markup_is_held_back(pieces: Seq<Seq<char>>)
    requires
        forall|n: int| 0 <= n <= pieces.len() ==> may_be_markup(#[trigger] whole(pieces.take(n))),
    ensures
        StreamGuardV::initial().passed(pieces).len() == 0,
        StreamGuardV::initial().after_all(pieces) == (StreamGuardV {
            held: whole(pieces),
            open: false,
        }),
    decreases pieces.len(),
{
    let g = StreamGuardV::initial();
    if pieces.len() > 0 {
        let rest = pieces.drop_last();
        assert forall|n: int| 0 <= n <= rest.len() implies may_be_markup(
            #[trigger] whole(rest.take(n)),
        ) by {
            assert(rest.take(n) =~= pieces.take(n));
        }
        law_markup_is_held_back(rest);
        assert(pieces.take(pieces.len() as int) =~= pieces);
        assert(may_be_markup(whole(pieces.take(pieces.len() as int))));
    } else {
        assert(g.after_all(pieces) =~= StreamGuardV { held: whole(pieces), open: false });
    }
}

/// A text may be markup exactly as long as nothing but white space came, or the first
/// character that is none is `<`.
pub proof fn law_what_may_be_markup(s: Seq<char>, i: int)
    ensures
        (forall|k: int| 0 <= k < s.len() ==> is_space(#[trigger] s[k])) ==> may_be_markup(s),
        0 <= i < s.len() && !is_space(s[i]) && (forall|k: int|
            0 <= k < i ==> is_space(#[trigger] s[k])) ==> (may_be_markup(s) <==> s[i] == '<'),
{
    let n = law_trim_start_drops_white_space(s);
    if n < s.len() {
        assert(!is_space(s[n]));
        assert(trim_start(s)[0] == s[n]);
        if 0 <= i < s.len() && !is_space(s[i]) && (forall|k: int|
            0 <= k < i ==> is_space(#[trigger] s[k])) {
            if i < n {
                assert(is_space(s[i]));
            }
            if n < i {
                assert(is_space(s[n]));
            }
        }
    } else {
        if 0 <= i < s.len() {
            assert(is_space(s[i]));
        }
    }
}

/// Text that cannot be markup goes through at once, with all that was held back before
/// it, and from then on every piece goes through as it is.
pub proof fn law_other_text_goes_through(guard: StreamGuardV, piece: Seq<char>)
    ensures
        guard.open ==> guard.passes(piece) == piece && guard.after(piece).open,
        !guard.open && !may_be_markup(guard.held + piece) ==> guard.passes(piece) == guard.held
            + piece && guard.after(piece).open,
        !guard.open && may_be_markup(guard.held + piece) ==> guard.passes(piece).len() == 0
            && !guard.after(piece).open && guard.after(piece).held == guard.held + piece,
{
}

} // verus!
