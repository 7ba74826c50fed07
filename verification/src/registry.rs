//! The membership registry: which usernames are live in which room, and
//! the scoped guard that owns one claim.
//!
//! The registry models the shared store's per-room username sets. Claiming
//! is a single add-if-absent step, so two claims of the same pair can never
//! both succeed; a separate membership test followed by an add would leave
//! a window where they could.

use vstd::prelude::*;
use vstd::string::StrSliceExecFns;

verus! {

/// One stored claim as the model sees it.
pub open spec fn pair_view(e: (String, String)) -> (Seq<char>, Seq<char>) {
    (e.0@, e.1@)
}

/// Whether some entry of the list carries the given (room, username) pair.
pub open spec fn spec_entries_contain(
    entries: Seq<(String, String)>,
    p: (Seq<char>, Seq<char>),
) -> bool {
    exists|k: int| 0 <= k < entries.len() && pair_view(#[trigger] entries[k]) == p
}

/// Character-for-character text equality.
fn str_eq(a: &str, b: &str) -> (r: bool)
    ensures
        r == (a@ == b@),
{
    let n = a.unicode_len();
    let m = b.unicode_len();
    if n != m {
        return false;
    }
    let mut i: usize = 0;
    while i < n
        invariant
            i <= n,
            n == a@.len(),
            n == b@.len(),
            forall|k: int| 0 <= k < i ==> a@[k] == b@[k],
        decreases n - i,
    {
        if s_get(a, i) != s_get(b, i) {
            return false;
        }
        i = i + 1;
    }
    proof {
        assert(a@ =~= b@);
    }
    true
}

fn s_get(s: &str, i: usize) -> (c: char)
    requires
        i < s@.len(),
    ensures
        c == s@[i as int],
{
    s.get_char(i)
}

/// The set of (room, username) pairs currently claimed, shared by every
/// connection session of the process.
pub struct RoomRegistry {
    entries: Vec<(String, String)>,
}

impl View for RoomRegistry {
    type V = Set<(Seq<char>, Seq<char>)>;

    closed spec fn view(&self) -> Set<(Seq<char>, Seq<char>)> {
        Set::new(|p: (Seq<char>, Seq<char>)| spec_entries_contain(self.entries@, p))
    }
}

impl RoomRegistry {
    /// An empty registry.
    pub fn new() -> (r: Self)
        ensures
            r@ == Set::<(Seq<char>, Seq<char>)>::empty(),
    {
        let r = RoomRegistry { entries: Vec::new() };
        proof {
            assert(r@ =~= Set::<(Seq<char>, Seq<char>)>::empty());
        }
        r
    }

    /// Membership test: is this username live in this room?
    pub fn is_username_member(&self, room_name: &str, username: &str) -> (r: bool)
        ensures
            r == self@.contains((room_name@, username@)),
    {
        let ghost p = (room_name@, username@);
        let mut j: usize = 0;
        while j < self.entries.len()
            invariant
                j <= self.entries@.len(),
                p == (room_name@, username@),
                forall|k: int| 0 <= k < j ==> pair_view(#[trigger] self.entries@[k]) != p,
            decreases self.entries@.len() - j,
        {
            let e = &self.entries[j];
            proof {
                assert(*e == self.entries@[j as int]);
            }
            let room_matches = str_eq(e.0.as_str(), room_name);
            let user_matches = str_eq(e.1.as_str(), username);
            if room_matches && user_matches {
                proof {
                    assert(pair_view(self.entries@[j as int]) == p);
                }
                return true;
            }
            j = j + 1;
        }
        proof {
            assert(!spec_entries_contain(self.entries@, p));
        }
        false
    }

    /// Claim the pair if and only if it is free: the atomic add-if-absent.
    /// Exactly one of two claims of the same pair can succeed.
    pub fn try_claim(&mut self, room_name: &str, username: &str) -> (r: bool)
        ensures
            r == !old(self)@.contains((room_name@, username@)),
            r ==> final(self)@ == old(self)@.insert((room_name@, username@)),
            !r ==> final(self)@ == old(self)@,
            (final(self)@, r) == spec_claim(old(self)@, (room_name@, username@)),
    {
        let ghost p = (room_name@, username@);
        if self.is_username_member(room_name, username) {
            false
        } else {
            let ghost before = self.entries@;
            self.entries.push((room_name.to_owned(), username.to_owned()));
            proof {
                let after = self.entries@;
                assert forall|q: (Seq<char>, Seq<char>)| spec_entries_contain(after, q)
                    <==> (spec_entries_contain(before, q) || q == p) by {
                    if spec_entries_contain(after, q) {
                        let k = choose|k: int| 0 <= k < after.len() && pair_view(
                            #[trigger] after[k],
                        ) == q;
                        if k < before.len() {
                            assert(after[k] == before[k]);
                            assert(spec_entries_contain(before, q));
                        } else {
                            assert(pair_view(after[before.len() as int]) == p);
                        }
                    }
                    if spec_entries_contain(before, q) {
                        let k = choose|k: int| 0 <= k < before.len() && pair_view(
                            #[trigger] before[k],
                        ) == q;
                        assert(after[k] == before[k]);
                        assert(pair_view(after[k]) == q);
                    }
                    if q == p {
                        assert(pair_view(after[before.len() as int]) == p);
                    }
                }
                assert(self@ =~= old(self)@.insert(p));
            }
            true
        }
    }

    /// Idempotent set-insert of the pair.
    pub fn add_username_to_room(&mut self, room_name: &str, username: &str)
        ensures
            final(self)@ == old(self)@.insert((room_name@, username@)),
    {
        let claimed = self.try_claim(room_name, username);
        proof {
            if !claimed {
                assert(old(self)@.insert((room_name@, username@)) =~= old(self)@);
            }
        }
    }

    /// Idempotent set-delete of the pair.
    #[verifier::spinoff_prover]
    pub fn remove_username_from_room(&mut self, room_name: &str, username: &str)
        ensures
            final(self)@ == old(self)@.remove((room_name@, username@)),
    {
        let ghost p = (room_name@, username@);
        let ghost before = self.entries@;
        let mut kept: Vec<(String, String)> = Vec::new();
        let mut j: usize = 0;
        while j < self.entries.len()
            invariant
                j <= self.entries@.len(),
                self.entries@ == before,
                p == (room_name@, username@),
                forall|q: (Seq<char>, Seq<char>)|
                    spec_entries_contain(kept@, q) <==> (spec_entries_contain(
                        before.take(j as int),
                        q,
                    ) && q != p),
            decreases self.entries@.len() - j,
        {
            let ghost kept_before = kept@;
            let e = &self.entries[j];
            proof {
                assert(*e == before[j as int]);
            }
            let is_target = str_eq(e.0.as_str(), room_name) && str_eq(e.1.as_str(), username);
            if !is_target {
                let new_entry = (e.0.clone(), e.1.clone());
                let ghost ne = new_entry;
                kept.push(new_entry);
                proof {
                    let taken = before.take(j + 1 as int);
                    assert(taken =~= before.take(j as int).push(before[j as int]));
                    assert forall|q: (Seq<char>, Seq<char>)| spec_entries_contain(kept@, q)
                        <==> (spec_entries_contain(taken, q) && q != p) by {
                        lemma_contain_push(before.take(j as int), before[j as int], q);
                        lemma_contain_push(kept_before, ne, q);
                        assert(pair_view(ne) == pair_view(before[j as int]));
                    }
                }
            } else {
                proof {
                    let taken = before.take(j + 1 as int);
                    assert(taken =~= before.take(j as int).push(before[j as int]));
                    assert forall|q: (Seq<char>, Seq<char>)| spec_entries_contain(kept@, q)
                        <==> (spec_entries_contain(taken, q) && q != p) by {
                        lemma_contain_push(before.take(j as int), before[j as int], q);
                        assert(pair_view(before[j as int]) == p);
                    }
                }
            }
            j = j + 1;
        }
        proof {
            assert(before.take(before.len() as int) =~= before);
        }
        self.entries = kept;
        proof {
            assert(self@ =~= old(self)@.remove(p));
        }
    }
}

/// Appending one entry adds exactly its pair to what the list carries.
proof fn lemma_contain_push(
    entries: Seq<(String, String)>,
    e: (String, String),
    q: (Seq<char>, Seq<char>),
)
    ensures
        spec_entries_contain(entries.push(e), q) <==> (spec_entries_contain(entries, q)
            || pair_view(e) == q),
{
    let after = entries.push(e);
    if spec_entries_contain(after, q) {
        let k = choose|k: int| 0 <= k < after.len() && pair_view(#[trigger] after[k]) == q;
        if k < entries.len() {
            assert(after[k] == entries[k]);
            assert(spec_entries_contain(entries, q));
        }
    }
    if spec_entries_contain(entries, q) {
        let k = choose|k: int| 0 <= k < entries.len() && pair_view(#[trigger] entries[k]) == q;
        assert(after[k] == entries[k]);
        assert(pair_view(after[k]) == q);
    }
    if pair_view(e) == q {
        assert(pair_view(after[entries.len() as int]) == q);
    }
}

/// The guard owning one (room, username) claim. It exists only for a pair
/// that was successfully claimed, and releasing it always deletes the pair.
pub struct ChatRoomUser {
    room_name: String,
    username: String,
}

impl View for ChatRoomUser {
    type V = (Seq<char>, Seq<char>);

    closed spec fn view(&self) -> (Seq<char>, Seq<char>) {
        (self.room_name@, self.username@)
    }
}

impl ChatRoomUser {
    /// Claim (room, username). Yields a guard exactly when the pair was
    /// free; when it is already held, reports that and changes nothing.
    pub fn try_new(registry: &mut RoomRegistry, room_name: &str, username: &str) -> (r: Option<
        ChatRoomUser,
    >)
        ensures
            match r {
                Some(guard) => {
                    &&& !old(registry)@.contains((room_name@, username@))
                    &&& final(registry)@ == old(registry)@.insert((room_name@, username@))
                    &&& guard@ == (room_name@, username@)
                },
                None => {
                    &&& old(registry)@.contains((room_name@, username@))
                    &&& final(registry)@ == old(registry)@
                },
            },
    {
        if registry.try_claim(room_name, username) {
            Some(ChatRoomUser { room_name: room_name.to_owned(), username: username.to_owned() })
        } else {
            None
        }
    }

    /// The room this claim is for.
    pub fn room_name(&self) -> (r: &str)
        ensures
            r@ == self@.0,
    {
        self.room_name.as_str()
    }

    /// The claimed username.
    pub fn username(&self) -> (r: &str)
        ensures
            r@ == self@.1,
    {
        self.username.as_str()
    }

    /// Release the claim: the pair is gone from the registry afterwards,
    /// whatever else happened in between.
    pub fn release(self, registry: &mut RoomRegistry)
        ensures
            final(registry)@ == old(registry)@.remove(self@),
            !final(registry)@.contains(self@),
    {
        registry.remove_username_from_room(self.room_name.as_str(), self.username.as_str());
    }
}

/// What one claim does to the registry's model: the pair is added and the
/// claim granted exactly when the pair was free.
pub open spec fn spec_claim(
    m: Set<(Seq<char>, Seq<char>)>,
    p: (Seq<char>, Seq<char>),
) -> (Set<(Seq<char>, Seq<char>)>, bool) {
    if m.contains(p) {
        (m, false)
    } else {
        (m.insert(p), true)
    }
}

/// Uniqueness of claims: the claim step is a single atomic add-if-absent,
/// so when two sessions claim the same (room, username) pair, in whatever
/// order the registry serializes them, at most one claim is granted — and
/// on a registry not already holding the pair, exactly the first one.
pub proof fn lemma_claim_uniqueness(
    m: Set<(Seq<char>, Seq<char>)>,
    room: Seq<char>,
    user: Seq<char>,
)
    ensures
        ({
            let p = (room, user);
            let (m1, first) = spec_claim(m, p);
            let (m2, second) = spec_claim(m1, p);
            &&& !(first && second)
            &&& (!m.contains(p) ==> first && !second)
        }),
        !m.remove((room, user)).contains((room, user)),
{
}

} // verus!
