//! Deciding how soon session output is painted.
use vstd::prelude::*;

verus! {

/// How many escape bytes there are in output.
pub open spec fn escapes(data: Seq<u8>) -> nat
    decreases data.len(),
{
    if data.len() == 0 {
        0
    } else {
        escapes(data.drop_last()) + if data.last() == 0x1B {
            1nat
        } else {
            0
        }
    }
}

/// Whether a byte string stands in output at `i`.
pub open spec fn stands_at(data: Seq<u8>, part: Seq<u8>, i: int) -> bool {
    0 <= i && i + part.len() <= data.len() && data.subrange(i, i + part.len()) == part
}

/// Whether a byte string stands anywhere in output.
pub open spec fn holds_bytes(data: Seq<u8>, part: Seq<u8>) -> bool {
    exists|i: int| #[trigger] stands_at(data, part, i)
}

/// The bytes that clear the screen.
pub open spec fn clear_screen() -> Seq<u8> {
    seq![0x1B, 0x5B, 0x32, 0x4A]
}

/// The bytes that move the cursor to the corner.
pub open spec fn cursor_home() -> Seq<u8> {
    seq![0x1B, 0x5B, 0x48]
}

/// Whether output redraws so much that more of it is likely to follow: it clears the screen, or
/// goes to the corner and has four escape sequences, or has eight.
pub open spec fn redraws(data: Seq<u8>) -> bool {
    holds_bytes(data, clear_screen()) || (holds_bytes(data, cursor_home()) && escapes(data) >= 4)
        || escapes(data) >= 8
}

/// Whether output of a session on the primary screen is to be gathered before it is painted.
pub fn should_coalesce_primary_screen_output(data: &[u8]) -> (r: bool)
    ensures
        r == redraws(data@),
{
    let n: usize = data.len();
    let mut count: usize = 0;
    let mut clear = false;
    let mut home = false;
    let mut i: usize = 0;
    assert(data@.take(0) =~= Seq::empty());
    while i < n
        invariant
            n == data@.len(),
            i <= n,
            count <= i,
            count == escapes(data@.take(i as int)),
            clear <==> exists|k: int| k < i && #[trigger] stands_at(data@, clear_screen(), k),
            home <==> exists|k: int| k < i && #[trigger] stands_at(data@, cursor_home(), k),
        decreases n - i,
    {
        assert(data@.take(i + 1).drop_last() =~= data@.take(i as int));
        if data[i] == 0x1B {
            count += 1;
        }
        let is_home = n - i >= 3 && data[i] == 0x1B && data[i + 1] == 0x5B && data[i + 2] == 0x48;
        assert(is_home == stands_at(data@, cursor_home(), i as int)) by {
            if i + 3 <= n {
                let s = data@.subrange(i as int, i + 3);
                assert(s[0] == data@[i as int] && s[1] == data@[i + 1] && s[2] == data@[i + 2]);
                if is_home {
                    assert(s =~= cursor_home());
                }
            }
        }
        let is_clear = n - i >= 4 && data[i] == 0x1B && data[i + 1] == 0x5B && data[i + 2] == 0x32
            && data[i + 3] == 0x4A;
        assert(is_clear == stands_at(data@, clear_screen(), i as int)) by {
            if i + 4 <= n {
                let s = data@.subrange(i as int, i + 4);
                assert(s[0] == data@[i as int] && s[1] == data@[i + 1] && s[2] == data@[i + 2]
                    && s[3] == data@[i + 3]);
                if is_clear {
                    assert(s =~= clear_screen());
                }
            }
        }
        if is_home {
            home = true;
        }
        if is_clear {
            clear = true;
        }
        i += 1;
    }
    proof {
        assert(data@.take(i as int) =~= data@);
        assert forall|k: int| #[trigger] stands_at(data@, clear_screen(), k) implies k < n by {}
        assert forall|k: int| #[trigger] stands_at(data@, cursor_home(), k) implies k < n by {}
    }
    clear || (home && count >= 4) || count >= 8
}

proof fn lemma_plain_has_no_escapes(data: Seq<u8>)
    requires
        forall|i: int| 0 <= i < data.len() ==> data[i] != 0x1B,
    ensures
        escapes(data) == 0,
    decreases data.len(),
{
    if data.len() > 0 {
        lemma_plain_has_no_escapes(data.drop_last());
    }
}

/// Plain text is painted at once.
pub proof fn law_plain_text_is_painted_at_once(data: Seq<u8>)
    requires
        forall|i: int| 0 <= i < data.len() ==> data[i] != 0x1B,
    ensures
        !redraws(data),
{
    lemma_plain_has_no_escapes(data);
    if holds_bytes(data, clear_screen()) {
        let i = choose|i: int| #[trigger] stands_at(data, clear_screen(), i);
        assert(data.subrange(i, i + 4)[0] == data[i]);
    }
}

proof fn lemma_escapes_counted(data: Seq<u8>)
    ensures
        escapes(data) == data.to_multiset().count(0x1B),
    decreases data.len(),
{
    broadcast use vstd::seq_lib::group_to_multiset_ensures;

    if data.len() > 0 {
        lemma_escapes_counted(data.drop_last());
        assert(data =~= data.drop_last().push(data.last()));
    } else {
        assert(data =~= Seq::empty());
    }
}

/// Output is held back as a redraw exactly if it clears the screen (ESC [ 2 J), or sends the cursor
/// home (ESC [ H) and holds four ESC or more, or holds eight ESC or more.
pub proof fn law_redraws_are_told_by_their_escapes(data: Seq<u8>)
    ensures
        ({
            let count = data.to_multiset().count(0x1B);
            let clears = exists|i: int|
                0 <= i && i + 3 < data.len() && #[trigger] data[i] == 0x1B && data[i + 1] == 0x5B
                    && data[i + 2] == 0x32 && data[i + 3] == 0x4A;
            let homes = exists|i: int|
                0 <= i && i + 2 < data.len() && #[trigger] data[i] == 0x1B && data[i + 1] == 0x5B
                    && data[i + 2] == 0x48;
            redraws(data) <==> clears || (homes && count >= 4) || count >= 8
        }),
{
    lemma_escapes_counted(data);
    let clears = exists|i: int|
        0 <= i && i + 3 < data.len() && #[trigger] data[i] == 0x1B && data[i + 1] == 0x5B && data[i
            + 2] == 0x32 && data[i + 3] == 0x4A;
    let homes = exists|i: int|
        0 <= i && i + 2 < data.len() && #[trigger] data[i] == 0x1B && data[i + 1] == 0x5B && data[i
            + 2] == 0x48;
    if clears {
        let i = choose|i: int|
            0 <= i && i + 3 < data.len() && #[trigger] data[i] == 0x1B && data[i + 1] == 0x5B
                && data[i + 2] == 0x32 && data[i + 3] == 0x4A;
        assert(data.subrange(i, i + 4) =~= clear_screen());
        assert(stands_at(data, clear_screen(), i));
    }
    if holds_bytes(data, clear_screen()) {
        let i = choose|i: int| #[trigger] stands_at(data, clear_screen(), i);
        let part = data.subrange(i, i + 4);
        assert(part[0] == data[i] && part[1] == data[i + 1] && part[2] == data[i + 2] && part[3]
            == data[i + 3]);
    }
    if homes {
        let i = choose|i: int|
            0 <= i && i + 2 < data.len() && #[trigger] data[i] == 0x1B && data[i + 1] == 0x5B
                && data[i + 2] == 0x48;
        assert(data.subrange(i, i + 3) =~= cursor_home());
        assert(stands_at(data, cursor_home(), i));
    }
    if holds_bytes(data, cursor_home()) {
        let i = choose|i: int| #[trigger] stands_at(data, cursor_home(), i);
        let part = data.subrange(i, i + 3);
        assert(part[0] == data[i] && part[1] == data[i + 1] && part[2] == data[i + 2]);
    }
}

} // verus!
