//! Push-token registry: device identifier -> delivery-destination token,
//! last-write-wins, entries never expire.
use vstd::prelude::*;
use vstd::hash_map::StringHashMap;

verus! {

/// Maps each device identifier to the push token most recently registered
/// for it. Abstractly it is a map from character sequences to character
/// sequences.
pub struct PushTokenRegistry {
    pub tokens: StringHashMap<String>,
}

impl View for PushTokenRegistry {
    type V = Map<Seq<char>, Seq<char>>;

    open spec fn view(&self) -> Map<Seq<char>, Seq<char>> {
        Map::new(|k: Seq<char>| self.tokens@.contains_key(k), |k: Seq<char>| self.tokens@[k]@)
    }
}

impl PushTokenRegistry {
    /// An empty registry.
    pub fn new() -> (r: PushTokenRegistry)
        ensures
            r@ == Map::<Seq<char>, Seq<char>>::empty(),
    {
        let r = PushTokenRegistry { tokens: StringHashMap::new() };
        proof {
            assert(r@ =~= Map::<Seq<char>, Seq<char>>::empty());
        }
        r
    }

    /// Unconditional upsert: after the call the device maps to `token`,
    /// whether or not it had an entry before.
    pub fn update(&mut self, device_id: String, token: String)
        ensures
            final(self)@ == old(self)@.insert(device_id@, token@),
    {
        let ghost d = device_id@;
        let ghost t = token@;
        self.tokens.insert(device_id, token);
        proof {
            assert(self@ =~= old(self)@.insert(d, t));
        }
    }

    /// A copy of the current token for the device, or `None` when none was
    /// ever registered.
    pub fn get(&self, device_id: &str) -> (r: Option<String>)
        ensures
            match r {
                Some(t) => self@.contains_key(device_id@) && t@ == self@[device_id@],
                None => !self@.contains_key(device_id@),
            },
    {
        match self.tokens.get(device_id) {
            Some(t) => Some(t.clone()),
            None => None,
        }
    }

    /// Number of devices with a registered token.
    pub fn len(&self) -> (r: usize)
        ensures
            r == self@.dom().len(),
    {
        proof {
            assert(self@.dom() =~= self.tokens@.dom());
        }
        self.tokens.len()
    }
}

} // verus!
