//! Names and the addresses they stand for.
use vstd::prelude::*;
use vstd::string::*;

verus! {

/// The names that the machine defines: its registers and its I/O maps.
pub open spec fn predefined() -> Map<Seq<char>, nat> {
    Map::<Seq<char>, nat>::empty()
        .insert("SP"@, 0)
        .insert("LCL"@, 1)
        .insert("ARG"@, 2)
        .insert("THIS"@, 3)
        .insert("THAT"@, 4)
        .insert("R0"@, 0)
        .insert("R1"@, 1)
        .insert("R2"@, 2)
        .insert("R3"@, 3)
        .insert("R4"@, 4)
        .insert("R5"@, 5)
        .insert("R6"@, 6)
        .insert("R7"@, 7)
        .insert("R8"@, 8)
        .insert("R9"@, 9)
        .insert("R10"@, 10)
        .insert("R11"@, 11)
        .insert("R12"@, 12)
        .insert("R13"@, 13)
        .insert("R14"@, 14)
        .insert("R15"@, 15)
        .insert("SCREEN"@, 16384)
        .insert("KBD"@, 24576)
}

/// A map from names to addresses.
pub struct SymbolTable {
    names: Vec<String>,
    addresses: Vec<usize>,
    table: Ghost<Map<Seq<char>, nat>>,
}

impl View for SymbolTable {
    type V = Map<Seq<char>, nat>;

    closed spec fn view(&self) -> Map<Seq<char>, nat> {
        self.table@
    }
}

/// A table that holds the predefined names.
#[allow(non_snake_case)]
pub fn Create() -> (r: SymbolTable)
    ensures
        r.wf(),
        r@ == predefined(),
{
    let mut t = SymbolTable { names: Vec::new(), addresses: Vec::new(), table: Ghost(Map::empty()) };
    t.addEntry(String::from_str("SP"), 0);
    t.addEntry(String::from_str("LCL"), 1);
    t.addEntry(String::from_str("ARG"), 2);
    t.addEntry(String::from_str("THIS"), 3);
    t.addEntry(String::from_str("THAT"), 4);
    t.addEntry(String::from_str("R0"), 0);
    t.addEntry(String::from_str("R1"), 1);
    t.addEntry(String::from_str("R2"), 2);
    t.addEntry(String::from_str("R3"), 3);
    t.addEntry(String::from_str("R4"), 4);
    t.addEntry(String::from_str("R5"), 5);
    t.addEntry(String::from_str("R6"), 6);
    t.addEntry(String::from_str("R7"), 7);
    t.addEntry(String::from_str("R8"), 8);
    t.addEntry(String::from_str("R9"), 9);
    t.addEntry(String::from_str("R10"), 10);
    t.addEntry(String::from_str("R11"), 11);
    t.addEntry(String::from_str("R12"), 12);
    t.addEntry(String::from_str("R13"), 13);
    t.addEntry(String::from_str("R14"), 14);
    t.addEntry(String::from_str("R15"), 15);
    t.addEntry(String::from_str("SCREEN"), 16384);
    t.addEntry(String::from_str("KBD"), 24576);
    t
}

impl SymbolTable {
    /// Each name is stored once, beside its address.
    pub closed spec fn wf(&self) -> bool {
        &&& self.names@.len() == self.addresses@.len()
        &&& forall|i: int|
            0 <= i < self.names@.len() ==> self.table@.contains_key(#[trigger] self.names@[i]@)
                && self.table@[self.names@[i]@] == self.addresses@[i] as nat
        &&& forall|k: Seq<char>|
            #[trigger] self.table@.contains_key(k) ==> exists|i: int|
                0 <= i < self.names@.len() && #[trigger] self.names@[i]@ == k
        &&& forall|i: int, j: int|
            0 <= i < j < self.names@.len() ==> #[trigger] self.names@[i]@ != #[trigger] self.names@[j]@
    }

    fn position(&self, symbol: &String) -> (r: Option<usize>)
        requires
            self.wf(),
        ensures
            r matches Some(i) ==> i < self.names@.len() && self.names@[i as int]@ == symbol@,
            r is None ==> !self@.contains_key(symbol@),
    {
        let mut i: usize = 0;
        while i < self.names.len()
            invariant
                self.wf(),
                i <= self.names@.len(),
                forall|j: int| 0 <= j < i ==> #[trigger] self.names@[j]@ != symbol@,
            decreases self.names.len() - i,
        {
            if self.names[i] == *symbol {
                return Some(i);
            }
            i += 1;
        }
        None
    }

    /// Binds `symbol` to `address`, replacing an earlier binding.
    #[allow(non_snake_case)]
    pub fn addEntry(&mut self, symbol: String, address: usize)
        requires
            old(self).wf(),
        ensures
            final(self).wf(),
            final(self)@ == old(self)@.insert(symbol@, address as nat),
    {
        match self.position(&symbol) {
            Some(i) => {
                self.addresses.set(i, address);
                self.table = Ghost(self.table@.insert(symbol@, address as nat));
            },
            None => {
                self.table = Ghost(self.table@.insert(symbol@, address as nat));
                self.names.push(symbol);
                self.addresses.push(address);
                proof {
                    let n = (self.names@.len() - 1) as int;
                    assert forall|k: Seq<char>| #[trigger] self.table@.contains_key(k) implies exists|i: int|
                        0 <= i < self.names@.len() && #[trigger] self.names@[i]@ == k by {
                        if k != symbol@ {
                            let i = choose|i: int| 0 <= i < old(self).names@.len() && #[trigger] old(self).names@[i]@ == k;
                            assert(self.names@[i]@ == k);
                        } else {
                            assert(self.names@[n]@ == k);
                        }
                    }
                }
            },
        }
    }

    /// Whether `symbol` is bound.
    pub fn contains(&self, symbol: &String) -> (r: bool)
        requires
            self.wf(),
        ensures
            r == self@.contains_key(symbol@),
    {
        self.position(symbol).is_some()
    }

    /// The address that `symbol` is bound to.
    #[allow(non_snake_case)]
    pub fn GetAddress(&self, symbol: &String) -> (r: usize)
        requires
            self.wf(),
            self@.contains_key(symbol@),
        ensures
            r as nat == self@[symbol@],
    {
        match self.position(symbol) {
            Some(i) => self.addresses[i],
            None => 0,
        }
    }
}

} // verus!
