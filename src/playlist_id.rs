//! Deriving the uploads playlist id from a channel id.
//!
//! A channel id starts with `UC`; the playlist of its uploads has the same id
//! with `UU` in its place. The rule is applied as a single first-match
//! substitution anywhere in the id, not only where the id starts with it.
use vstd::prelude::*;
use vstd::string::*;

verus! {

/// `s` holds the pair `"UC"` starting at position `i`.
pub open spec fn uc_at(s: Seq<char>, i: int) -> bool {
    0 <= i && i + 1 < s.len() && s[i] == 'U' && s[i + 1] == 'C'
}

/// `i` is the position of the first `"UC"` in `s`.
pub open spec fn first_uc_at(s: Seq<char>, i: int) -> bool {
    uc_at(s, i) && forall|j: int| 0 <= j < i ==> !#[trigger] uc_at(s, j)
}

/// The id with its first `"UC"` replaced by `"UU"`; an id without `"UC"` is
/// left as it is. Replacing the pair at `i` only turns the `C` at `i + 1`
/// into a `U`.
pub open spec fn effective_playlist_id_spec(s: Seq<char>) -> Seq<char> {
    if exists|i: int| uc_at(s, i) {
        let i = choose|i: int| first_uc_at(s, i);
        s.update(i + 1, 'U')
    } else {
        s
    }
}

/// There is only one first occurrence.
proof fn lemma_first_uc_unique(s: Seq<char>, i: int, j: int)
    requires
        first_uc_at(s, i),
        first_uc_at(s, j),
    ensures
        i == j,
{
    if i < j {
        assert(!uc_at(s, i));
    } else if j < i {
        assert(!uc_at(s, j));
    }
}

/// The playlist id sent upstream for the id `raw_id` of the request path.
pub fn effective_playlist_id(raw_id: &str) -> (r: String)
    ensures
        r@ == effective_playlist_id_spec(raw_id@),
{
    let n = raw_id.unicode_len();
    let mut i: usize = 0;
    while i < n && i + 1 < n
        invariant
            n == raw_id@.len(),
            i <= n,
            forall|j: int| 0 <= j < i ==> !#[trigger] uc_at(raw_id@, j),
        decreases n - i,
    {
        if raw_id.get_char(i) == 'U' && raw_id.get_char(i + 1) == 'C' {
            let mut r = String::from_str(raw_id.substring_char(0, i + 1));
            r.append("U");
            r.append(raw_id.substring_char(i + 2, n));
            proof {
                reveal_strlit("U");
                let s = raw_id@;
                assert(first_uc_at(s, i as int));
                let k = choose|k: int| first_uc_at(s, k);
                lemma_first_uc_unique(s, i as int, k);
                assert(r@ =~= s.update(i + 1, 'U'));
            }
            return r;
        }
        i += 1;
    }
    assert forall|j: int| !uc_at(raw_id@, j) by {
        if 0 <= j < i {
        }
    }
    String::from_str(raw_id)
}

} // verus!
