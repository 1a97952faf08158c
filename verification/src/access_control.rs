//! Access control: when enabled, a smart contract may call only if allowed.
use crate::errors::StablePoolError;
use crate::tokens::bytes_eq;
use crate::StablePool;
use vstd::prelude::*;

verus! {

/// The addresses of a list.
pub open spec fn address_set(v: Seq<Vec<u8>>) -> Set<Seq<u8>> {
    Set::new(|a: Seq<u8>| exists|k: int| 0 <= k < v.len() && #[trigger] v[k]@ == a)
}

/// Whether a caller may call: always, unless filtering is on and the caller
/// is a smart contract that is not allowed.
pub open spec fn spec_caller_authorized(
    ac_enabled: bool,
    allowed: Set<Seq<u8>>,
    caller: Seq<u8>,
    caller_is_smart_contract: bool,
) -> bool {
    !(ac_enabled && caller_is_smart_contract && !allowed.contains(caller))
}

/// The list of allowed smart contracts.
pub trait AccessControlModule {
    /// Allows (`allow`) or disallows a smart contract.
    fn do_allow_sc(&mut self, address: &Vec<u8>, allow: bool);

    /// Turns filtering of smart-contract callers on.
    fn do_enable_access_control(&mut self);

    /// Turns filtering of smart-contract callers off.
    fn do_disable_access_control(&mut self);

    /// Refuses a smart-contract caller that is not allowed while filtering is
    /// on. Whether the caller is a smart contract is a fact of the chain.
    fn require_caller_is_authorized(&self, caller: &Vec<u8>, caller_is_smart_contract: bool) -> Result<
        (),
        StablePoolError,
    >;

    /// Whether filtering is on.
    fn is_ac_enabled(&self) -> bool;

    /// Whether a smart contract is allowed.
    fn is_sc_allowed(&self, address: &Vec<u8>) -> bool;
}

impl StablePool {
    fn allowed_contains(&self, address: &Vec<u8>) -> (r: bool)
        ensures
            r == self@.allowed_scs.contains(address@),
    {
        let mut k: usize = 0;
        while k < self.allowed_scs.len()
            invariant
                0 <= k <= self.allowed_scs.len(),
                forall|m: int| 0 <= m < k ==> self.allowed_scs@[m]@ != address@,
            decreases self.allowed_scs.len() - k,
        {
            if bytes_eq(&self.allowed_scs[k], address) {
                assert(address_set(self.allowed_scs@).contains(address@));
                return true;
            }
            k += 1;
        }
        false
    }
}

impl AccessControlModule for StablePool {
    fn do_allow_sc(&mut self, address: &Vec<u8>, allow: bool)
        ensures
            final(self)@ == old(self)@.with_access_control(
                old(self)@.ac_enabled,
                if allow {
                    old(self)@.allowed_scs.insert(address@)
                } else {
                    old(self)@.allowed_scs.remove(address@)
                },
            ),
    {
        proof {
            use_type_invariant(&*self);
        }
        let ghost before = self@.allowed_scs;
        let mut kept: Vec<Vec<u8>> = Vec::new();
        let mut k: usize = 0;
        while k < self.allowed_scs.len()
            invariant
                0 <= k <= self.allowed_scs.len(),
                forall|m: int| 0 <= m < kept.len() ==> #[trigger] kept@[m]@ != address@,
                address_set(kept@) == address_set(self.allowed_scs@.take(k as int)).remove(
                    address@,
                ),
            decreases self.allowed_scs.len() - k,
        {
            let ghost prev = kept@;
            if !bytes_eq(&self.allowed_scs[k], address) {
                kept.push(self.allowed_scs[k].clone());
            }
            proof {
                assert(self.allowed_scs@.take(k + 1) =~= self.allowed_scs@.take(k as int).push(
                    self.allowed_scs@[k as int],
                ));
                assert(address_set(kept@) =~= address_set(self.allowed_scs@.take(k + 1)).remove(
                    address@,
                )) by {
                    assert forall|a: Seq<u8>| address_set(kept@).contains(a) implies address_set(
                        self.allowed_scs@.take(k + 1),
                    ).remove(address@).contains(a) by {
                        let w = choose|w: int| 0 <= w < kept@.len() && #[trigger] kept@[w]@ == a;
                        if w < prev.len() {
                            assert(address_set(prev).contains(a));
                            let v = choose|v: int|
                                0 <= v < self.allowed_scs@.take(k as int).len()
                                    && #[trigger] self.allowed_scs@.take(k as int)[v]@ == a;
                            assert(self.allowed_scs@.take(k + 1)[v]@ == a);
                        } else {
                            assert(self.allowed_scs@.take(k + 1)[k as int]@ == a);
                        }
                    }
                    assert forall|a: Seq<u8>|
                        address_set(self.allowed_scs@.take(k + 1)).remove(address@).contains(
                            a,
                        ) implies address_set(kept@).contains(a) by {
                        let v = choose|v: int|
                            0 <= v < self.allowed_scs@.take(k + 1).len()
                                && #[trigger] self.allowed_scs@.take(k + 1)[v]@ == a;
                        if v < k {
                            assert(self.allowed_scs@.take(k as int)[v]@ == a);
                            assert(address_set(prev).contains(a));
                            let w = choose|w: int| 0 <= w < prev.len() && #[trigger] prev[w]@ == a;
                            assert(kept@[w]@ == a);
                        } else {
                            assert(kept@[kept@.len() - 1]@ == a);
                        }
                    }
                }
            }
            k += 1;
        }
        proof {
            assert(self.allowed_scs@.take(self.allowed_scs.len() as int) =~= self.allowed_scs@);
        }
        if allow {
            let ghost prev = kept@;
            kept.push(address.clone());
            proof {
                assert(address_set(kept@) =~= before.insert(address@)) by {
                    assert forall|a: Seq<u8>| address_set(kept@).contains(a) implies before.insert(
                        address@,
                    ).contains(a) by {
                        let w = choose|w: int| 0 <= w < kept@.len() && #[trigger] kept@[w]@ == a;
                        if w < prev.len() {
                            assert(address_set(prev).contains(a));
                        }
                    }
                    assert forall|a: Seq<u8>| before.insert(address@).contains(a) implies address_set(
                        kept@,
                    ).contains(a) by {
                        if a == address@ {
                            assert(kept@[kept@.len() - 1]@ == a);
                        } else {
                            assert(address_set(prev).contains(a));
                            let w = choose|w: int| 0 <= w < prev.len() && #[trigger] prev[w]@ == a;
                            assert(kept@[w]@ == a);
                        }
                    }
                }
            }
        }
        self.allowed_scs = kept;
    }

    fn do_enable_access_control(&mut self)
        ensures
            final(self)@ == old(self)@.with_access_control(true, old(self)@.allowed_scs),
    {
        proof {
            use_type_invariant(&*self);
        }
        self.ac_enabled = true;
    }

    fn do_disable_access_control(&mut self)
        ensures
            final(self)@ == old(self)@.with_access_control(false, old(self)@.allowed_scs),
    {
        proof {
            use_type_invariant(&*self);
        }
        self.ac_enabled = false;
    }

    fn require_caller_is_authorized(&self, caller: &Vec<u8>, caller_is_smart_contract: bool) -> (r:
        Result<(), StablePoolError>)
        ensures
            r is Ok <==> spec_caller_authorized(
                self@.ac_enabled,
                self@.allowed_scs,
                caller@,
                caller_is_smart_contract,
            ),
            r is Err ==> r == Err::<(), StablePoolError>(StablePoolError::Unauthorized),
    {
        if self.ac_enabled {
            if caller_is_smart_contract {
                if !self.allowed_contains(caller) {
                    return Err(StablePoolError::Unauthorized);
                }
            }
        }
        Ok(())
    }

    fn is_ac_enabled(&self) -> (r: bool)
        ensures
            r == self@.ac_enabled,
    {
        self.ac_enabled
    }

    fn is_sc_allowed(&self, address: &Vec<u8>) -> (r: bool)
        ensures
            r == self@.allowed_scs.contains(address@),
    {
        self.allowed_contains(address)
    }
}

} // verus!
