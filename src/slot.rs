use vstd::prelude::*;

verus! {

/// The category a component belongs to.
#[derive(Clone, Copy, Debug, PartialEq, Eq, Structural, Hash)]
pub enum Slot {
    Cpu,
    Gpu,
    Memory,
    Storage,
}

/// The position of a slot in the fixed order Cpu, Gpu, Memory, Storage.
pub open spec fn slot_index(s: Slot) -> int {
    match s {
        Slot::Cpu => 0,
        Slot::Gpu => 1,
        Slot::Memory => 2,
        Slot::Storage => 3,
    }
}

/// The name a slot carries in requests and responses.
pub open spec fn slot_name(s: Slot) -> Seq<char> {
    match s {
        Slot::Cpu => seq!['C', 'p', 'u'],
        Slot::Gpu => seq!['G', 'p', 'u'],
        Slot::Memory => seq!['M', 'e', 'm', 'o', 'r', 'y'],
        Slot::Storage => seq!['S', 't', 'o', 'r', 'a', 'g', 'e'],
    }
}

/// Every slot, in order.
pub open spec fn all_slots() -> Seq<Slot> {
    seq![Slot::Cpu, Slot::Gpu, Slot::Memory, Slot::Storage]
}

impl Slot {
    /// Every slot, in the order Cpu, Gpu, Memory, Storage.
    pub fn variants() -> (r: Vec<Slot>)
        ensures
            r@ == all_slots(),
    {
        let r = vec![Slot::Cpu, Slot::Gpu, Slot::Memory, Slot::Storage];
        assert(r@ =~= all_slots());
        r
    }

    /// The position of the slot in the order of `variants`.
    pub fn index(&self) -> (r: usize)
        ensures
            r as int == slot_index(*self),
            r < 4,
    {
        match self {
            Slot::Cpu => 0,
            Slot::Gpu => 1,
            Slot::Memory => 2,
            Slot::Storage => 3,
        }
    }

    /// The slot's name as it appears in requests and responses.
    pub fn name(&self) -> (r: String)
        ensures
            r@ == slot_name(*self),
    {
        match self {
            Slot::Cpu => {
                proof { reveal_strlit("Cpu"); }
                String::from_str("Cpu")
            },
            Slot::Gpu => {
                proof { reveal_strlit("Gpu"); }
                String::from_str("Gpu")
            },
            Slot::Memory => {
                proof { reveal_strlit("Memory"); }
                String::from_str("Memory")
            },
            Slot::Storage => {
                proof { reveal_strlit("Storage"); }
                String::from_str("Storage")
            },
        }
    }

    /// The slot with the given name, if any.
    pub fn from_name(s: &str) -> (r: Option<Slot>)
        ensures
            r matches Some(x) ==> slot_name(x) == s@,
            r is None ==> forall|x: Slot| slot_name(x) != s@,
    {
        let n = s.unicode_len();
        let mut i: usize = 0;
        let all = Slot::variants();
        while i < all.len()
            invariant
                all@ == all_slots(),
                n == s@.len(),
                0 <= i <= all.len(),
                forall|j: int| 0 <= j < i ==> slot_name(#[trigger] all_slots()[j]) != s@,
            decreases all.len() - i,
        {
            let cand = all[i];
            let name = cand.name();
            if str_eq(name.as_str(), s) {
                return Some(cand);
            }
            i = i + 1;
        }
        proof {
            assert forall|x: Slot| slot_name(x) != s@ by {
                assert(all_slots()[slot_index(x)] == x);
            }
        }
        None
    }
}

/// Whether two strings hold the same characters.
pub fn str_eq(a: &str, b: &str) -> (r: bool)
    ensures
        r == (a@ == b@),
{
    let n = a.unicode_len();
    if n != b.unicode_len() {
        return false;
    }
    let mut i: usize = 0;
    while i < n
        invariant
            n == a@.len(),
            n == b@.len(),
            0 <= i <= n,
            forall|j: int| 0 <= j < i ==> a@[j] == b@[j],
        decreases n - i,
    {
        if a.get_char(i) != b.get_char(i) {
            return false;
        }
        i = i + 1;
    }
    assert(a@ =~= b@);
    true
}

} // verus!
