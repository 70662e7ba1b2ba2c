//! Address lists: operators keep a set of addresses; as a module, the list lets
//! through only the senders it includes (an inclusive list) or only those it
//! does not (an exclusive one).
use vstd::prelude::*;
use crate::common::{attr, attrs_are, Attribute, ContractError};
use crate::kv::{seq_has_string, contains_string};

verus! {

/// The list: whether it is inclusive and its addresses.
#[derive(Clone, Debug)]
pub struct AddressList {
    pub is_inclusive: bool,
    pub addresses: Vec<String>,
}

impl AddressList {
    /// The addresses as a set.
    pub open spec fn view(&self) -> Set<Seq<char>> {
        Set::new(|a: Seq<char>| seq_has_string(self.addresses@, a))
    }

    /// No address is listed twice.
    pub open spec fn wf(&self) -> bool {
        forall|i: int, j: int| 0 <= i < self.addresses@.len() && 0 <= j < self.addresses@.len() && i != j
            ==> (#[trigger] self.addresses@[i])@ != (#[trigger] self.addresses@[j])@
    }

    /// `includes_address`: whether `address` is listed.
    pub fn includes_address(&self, address: &String) -> (r: bool)
        ensures
            r == self.view().contains(address@),
    {
        contains_string(&self.addresses, address)
    }

    /// `add_address`: lists `address`.
    pub fn add_address(&mut self, address: &String)
        requires
            old(self).wf(),
        ensures
            final(self).wf(),
            final(self).view() == old(self).view().insert(address@),
            final(self).is_inclusive == old(self).is_inclusive,
    {
        let ghost before = self.addresses@;
        if !contains_string(&self.addresses, address) {
            self.addresses.push(address.clone());
            proof {
                assert forall|i: int, j: int| 0 <= i < self.addresses@.len() && 0 <= j < self.addresses@.len() && i != j
                    implies (#[trigger] self.addresses@[i])@ != (#[trigger] self.addresses@[j])@ by {
                    if i < before.len() { assert(self.addresses@[i] == before[i]); }
                    if j < before.len() { assert(self.addresses@[j] == before[j]); }
                }
                assert forall|a: Seq<char>| #[trigger] seq_has_string(self.addresses@, a) <==> seq_has_string(before, a) || a == address@ by {
                    if seq_has_string(before, a) {
                        let k = choose|k: int| 0 <= k < before.len() && (#[trigger] before[k])@ == a;
                        assert(self.addresses@[k] == before[k]);
                    }
                    if a == address@ {
                        assert(self.addresses@[before.len() as int]@ == a);
                    }
                    if seq_has_string(self.addresses@, a) && a != address@ {
                        let k = choose|k: int| 0 <= k < self.addresses@.len() && (#[trigger] self.addresses@[k])@ == a;
                        assert(k < before.len());
                        assert(self.addresses@[k] == before[k]);
                    }
                }
            }
        }
        proof {
            assert(self.view() =~= Set::new(|a: Seq<char>| seq_has_string(before, a)).insert(address@));
        }
    }

    /// `remove_address`: no longer lists `address`.
    pub fn remove_address(&mut self, address: &String)
        requires
            old(self).wf(),
        ensures
            final(self).wf(),
            final(self).view() == old(self).view().remove(address@),
            final(self).is_inclusive == old(self).is_inclusive,
    {
        let ghost before = self.addresses@;
        let mut kept: Vec<String> = Vec::new();
        let mut i: usize = 0;
        while i < self.addresses.len()
            invariant
                self.addresses@ == before,
                i <= before.len(),
                forall|a: int, b: int| 0 <= a < before.len() && 0 <= b < before.len() && a != b
                    ==> (#[trigger] before[a])@ != (#[trigger] before[b])@,
                forall|a: int, b: int| 0 <= a < kept@.len() && 0 <= b < kept@.len() && a != b
                    ==> (#[trigger] kept@[a])@ != (#[trigger] kept@[b])@,
                forall|s: Seq<char>| #[trigger] seq_has_string(kept@, s) <==> (seq_has_string(before.take(i as int), s) && s != address@),
            decreases before.len() - i,
        {
            let ghost k0 = kept@;
            if self.addresses[i] != *address {
                kept.push(self.addresses[i].clone());
                proof {
                    assert(!seq_has_string(k0, before[i as int]@)) by {
                        if seq_has_string(k0, before[i as int]@) {
                            assert(seq_has_string(before.take(i as int), before[i as int]@));
                            let k = choose|k: int| 0 <= k < before.take(i as int).len() && (#[trigger] before.take(i as int)[k])@ == before[i as int]@;
                            assert(before.take(i as int)[k] == before[k]);
                        }
                    }
                    assert forall|a: int, b: int| 0 <= a < kept@.len() && 0 <= b < kept@.len() && a != b
                        implies (#[trigger] kept@[a])@ != (#[trigger] kept@[b])@ by {
                        if a < k0.len() && b < k0.len() {
                            assert(kept@[a] == k0[a] && kept@[b] == k0[b]);
                        } else if a < k0.len() {
                            assert(kept@[a] == k0[a]);
                        } else {
                            assert(kept@[b] == k0[b]);
                        }
                    }
                }
            }
            proof {
                assert(before.take(i + 1) =~= before.take(i as int).push(before[i as int]));
                assert forall|s: Seq<char>| #[trigger] seq_has_string(kept@, s) <==> (seq_has_string(before.take(i + 1), s) && s != address@) by {
                    if seq_has_string(kept@, s) {
                        let k = choose|k: int| 0 <= k < kept@.len() && (#[trigger] kept@[k])@ == s;
                        if k < k0.len() {
                            assert(kept@[k] == k0[k]);
                            assert(seq_has_string(k0, s));
                            let q = choose|q: int| 0 <= q < before.take(i as int).len() && (#[trigger] before.take(i as int)[q])@ == s;
                            assert(before.take(i + 1)[q] == before.take(i as int)[q]);
                        } else {
                            assert(before.take(i + 1)[i as int] == before[i as int]);
                        }
                    }
                    if seq_has_string(before.take(i + 1), s) && s != address@ {
                        let q = choose|q: int| 0 <= q < before.take(i + 1).len() && (#[trigger] before.take(i + 1)[q])@ == s;
                        if q < i {
                            assert(before.take(i as int)[q] == before.take(i + 1)[q]);
                            assert(seq_has_string(k0, s));
                            let k = choose|k: int| 0 <= k < k0.len() && (#[trigger] k0[k])@ == s;
                            assert(kept@[k] == k0[k]);
                        } else {
                            assert(kept@[k0.len() as int] == before[i as int]);
                        }
                    }
                }
            }
            i = i + 1;
        }
        proof {
            assert(before.take(before.len() as int) =~= before);
        }
        self.addresses = kept;
        proof {
            assert(self.view() =~= Set::new(|a: Seq<char>| seq_has_string(before, a)).remove(address@));
        }
    }
}

/// `execute_add_address`: an operator lists `address`.
pub fn execute_add_address(is_operator: bool, list: &mut AddressList, address: &String) -> (r: Result<Vec<Attribute>, ContractError>)
    requires
        old(list).wf(),
    ensures
        final(list).wf(),
        !is_operator ==> r == Err::<Vec<Attribute>, ContractError>(ContractError::Unauthorized) && final(list).view() == old(list).view(),
        is_operator ==> (r matches Ok(attrs) && attrs_are(attrs@, seq![("action"@, "add_address"@), ("address"@, address@)]))
            && final(list).view() == old(list).view().insert(address@),
{
    if !is_operator {
        return Err(ContractError::Unauthorized);
    }
    list.add_address(address);
    Ok(vec![attr("action", "add_address".to_owned()), attr("address", address.clone())])
}

/// `execute_remove_address`: an operator unlists `address`.
pub fn execute_remove_address(is_operator: bool, list: &mut AddressList, address: &String) -> (r: Result<Vec<Attribute>, ContractError>)
    requires
        old(list).wf(),
    ensures
        final(list).wf(),
        !is_operator ==> r == Err::<Vec<Attribute>, ContractError>(ContractError::Unauthorized) && final(list).view() == old(list).view(),
        is_operator ==> (r matches Ok(attrs) && attrs_are(attrs@, seq![("action"@, "remove_address"@), ("address"@, address@)]))
            && final(list).view() == old(list).view().remove(address@),
{
    if !is_operator {
        return Err(ContractError::Unauthorized);
    }
    list.remove_address(address);
    Ok(vec![attr("action", "remove_address".to_owned()), attr("address", address.clone())])
}

/// `handle_andr_hook` on execution: a sender passes an inclusive list only if
/// listed, an exclusive one only if not listed.
pub fn on_execute(list: &AddressList, sender: &String) -> (r: Result<(), ContractError>)
    ensures
        list.view().contains(sender@) == list.is_inclusive ==> r is Ok,
        list.view().contains(sender@) != list.is_inclusive ==> r == Err::<(), ContractError>(ContractError::InvalidAddress),
{
    let included = list.includes_address(sender);
    if included != list.is_inclusive {
        Err(ContractError::InvalidAddress)
    } else {
        Ok(())
    }
}

/// An added address is listed and a removed one is not; other addresses keep
/// their standing. So an inclusive list lets through exactly the added
/// addresses, and an exclusive one exactly the others.
pub proof fn listing_is_read_back(listed: Set<Seq<char>>, address: Seq<char>, other: Seq<char>)
    requires
        other != address,
    ensures
        listed.insert(address).contains(address),
        !listed.remove(address).contains(address),
        listed.insert(address).contains(other) == listed.contains(other),
        listed.remove(address).contains(other) == listed.contains(other),
{
}

} // verus!
