//! The escrow: collected fees held above a reserve floor, released only on
//! the ledger's own signing authority.

use vstd::prelude::*;
use crate::error::CustomError;
use crate::principal::Principal;

verus! {

/// The capability by which one ledger authorizes transfers out of its own
/// escrow. It is bound to the ledger's identity: the principal that created
/// the ledger and the bump of its derived address.
#[derive(Clone, Copy, Debug, PartialEq, Eq)]
pub struct SigningAuthority {
    pub owner: Principal,
    pub bump: u8,
}

/// An outgoing payment for the environment to carry out.
#[derive(Clone, Copy, Debug, PartialEq, Eq)]
pub struct Transfer {
    pub to: Principal,
    pub lamports: u64,
}

/// The purpose tag of the escrow's derived address: the ASCII bytes of `arcade_account`.
pub open spec fn seed_tag() -> Seq<u8> {
    seq![97u8, 114u8, 99u8, 97u8, 100u8, 101u8, 95u8, 97u8, 99u8, 99u8, 111u8, 117u8, 110u8, 116u8]
}

impl SigningAuthority {
    /// Whether two authorities belong to the same ledger.
    pub fn same(&self, other: &SigningAuthority) -> (r: bool)
        ensures
            r == (*self == *other),
    {
        self.bump == other.bump && self.owner.same(&other.owner)
    }

    /// The seeds from which the escrow's address is derived and with which a
    /// withdrawal is signed: the purpose tag, the owner and the bump.
    pub fn seeds(&self) -> (seeds: Vec<Vec<u8>>)
        ensures
            seeds@.len() == 3,
            seeds@[0]@ == seed_tag(),
            seeds@[1]@ == self.owner.bytes@,
            seeds@[2]@ == seq![self.bump],
    {
        let tag: Vec<u8> = vec![97u8, 114u8, 99u8, 97u8, 100u8, 101u8, 95u8, 97u8, 99u8, 99u8, 111u8, 117u8, 110u8, 116u8];
        assert(tag@ =~= seed_tag());
        let mut owner: Vec<u8> = Vec::new();
        let mut i: usize = 0;
        while i < 32
            invariant
                i <= 32,
                owner@ == self.owner.bytes@.take(i as int),
            decreases 32 - i,
        {
            owner.push(self.owner.bytes[i]);
            assert(self.owner.bytes@.take(i + 1) =~= self.owner.bytes@.take(i as int).push(
                self.owner.bytes@[i as int],
            ));
            i += 1;
        }
        assert(self.owner.bytes@.take(32) =~= self.owner.bytes@);
        let bump: Vec<u8> = vec![self.bump];
        assert(bump@ =~= seq![self.bump]);
        let mut seeds: Vec<Vec<u8>> = Vec::new();
        seeds.push(tag);
        seeds.push(owner);
        seeds.push(bump);
        seeds
    }
}

/// The escrowed pool of one ledger.
#[derive(Clone, Copy, Debug, PartialEq, Eq)]
pub struct EscrowAccount {
    pub balance: u64,
    pub min_reserve: u64,
    pub authority: SigningAuthority,
}

/// What an escrow with this balance and reserve can pay out.
pub open spec fn available(balance: nat, min_reserve: nat) -> nat {
    if balance >= min_reserve {
        (balance - min_reserve) as nat
    } else {
        0
    }
}

impl EscrowAccount {
    /// The balance is not below the reserve.
    pub open spec fn wf(&self) -> bool {
        self.balance >= self.min_reserve
    }

    /// An escrow that holds exactly its reserve.
    pub fn open(min_reserve: u64, authority: SigningAuthority) -> (escrow: EscrowAccount)
        ensures
            escrow.wf(),
            escrow.balance == min_reserve,
            escrow.min_reserve == min_reserve,
            escrow.authority == authority,
    {
        EscrowAccount { balance: min_reserve, min_reserve, authority }
    }

    /// The floor below which the balance never falls.
    pub fn min_reserve(&self) -> (r: u64)
        ensures
            r == self.min_reserve,
    {
        self.min_reserve
    }

    /// What can be paid out: the balance above the reserve.
    pub fn available_for_payout(&self) -> (r: u64)
        ensures
            r == available(self.balance as nat, self.min_reserve as nat),
    {
        if self.balance >= self.min_reserve {
            self.balance - self.min_reserve
        } else {
            0
        }
    }

    /// Adds `amount` to the balance, unless the balance would pass `u64::MAX`.
    pub fn deposit(&mut self, amount: u64) -> (r: Result<(), CustomError>)
        ensures
            r is Ok <==> old(self).balance + amount <= u64::MAX,
            r is Ok ==> *final(self) == (EscrowAccount {
                balance: (old(self).balance + amount) as u64,
                ..*old(self)
            }),
            r is Err ==> r == Err::<(), CustomError>(CustomError::ArithmeticOverflow) && *final(self)
                == *old(self),
            old(self).wf() ==> final(self).wf(),
    {
        if amount > u64::MAX - self.balance {
            return Err(CustomError::ArithmeticOverflow);
        }
        self.balance = self.balance + amount;
        Ok(())
    }

    /// Takes `amount` out for `destination`. The proof of authority must be
    /// the escrow's own, and the amount within what is available.
    pub fn withdraw(
        &mut self,
        amount: u64,
        destination: Principal,
        proof_of_authority: &SigningAuthority,
    ) -> (r: Result<Transfer, CustomError>)
        ensures
            r is Ok <==> *proof_of_authority == old(self).authority && amount <= available(
                old(self).balance as nat,
                old(self).min_reserve as nat,
            ),
            r is Ok ==> r == Ok::<Transfer, CustomError>(
                Transfer { to: destination, lamports: amount },
            ) && *final(self) == (EscrowAccount {
                balance: (old(self).balance - amount) as u64,
                ..*old(self)
            }),
            r is Err ==> *final(self) == *old(self),
            r is Err ==> r == Err::<Transfer, CustomError>(
                if *proof_of_authority != old(self).authority {
                    CustomError::Unauthorized
                } else {
                    CustomError::InsufficientAvailable
                },
            ),
            old(self).wf() ==> final(self).wf(),
    {
        if !self.authority.same(proof_of_authority) {
            return Err(CustomError::Unauthorized);
        }
        if amount > self.available_for_payout() {
            return Err(CustomError::InsufficientAvailable);
        }
        self.balance = self.balance - amount;
        Ok(Transfer { to: destination, lamports: amount })
    }
}

} // verus!
