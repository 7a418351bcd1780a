//! Schemas of named slots, and the two-phase validation of a supplied account
//! list against one: each slot is resolved and checked in declared order,
//! then duplicate writable accounts and deferred relationships are checked.

use crate::account::AccountInfo;
use crate::error::{fault, keyed_fault, named, Error, ErrorCode, ErrorView};
use crate::pda::{derived_address, find_program_address, seeds_view};
use crate::pubkey::{Pubkey, PUBKEY_BYTES};
use vstd::prelude::*;

verus! {

/// One rule applied to a slot's account.
#[derive(Clone, Debug)]
pub enum Wrapper {
    /// The account must be writable.
    Mutable,
    /// The key must be the address derived from these seeds; the bump is kept.
    AddressDerived { seeds: Vec<Vec<u8>> },
    /// The account must be owned by this program.
    OwnedBy { owner: Pubkey },
    /// The account must be an executable program.
    Executable,
    /// The key stored in the account data at `offset` must equal the key of
    /// the slot named `target`; checked once every slot is resolved.
    RelatesTo { target: String, offset: usize },
}

/// One named slot of a schema.
#[derive(Clone, Debug)]
pub struct SlotDeclaration {
    /// The slot's name, used in errors and as a relationship target.
    pub name: String,
    /// An optional slot may be left out: at the end of the list, or by
    /// supplying the program's own key in its place.
    pub optional: bool,
    /// The account must have signed.
    pub signer: bool,
    /// The account may also fill another writable slot.
    pub dup: bool,
    /// The account is being created by this handler: it takes its place in
    /// the list but is left to the initialization path, unchecked here.
    pub init: bool,
    /// The bytes the account data must start with, for a typed slot.
    pub discriminator: Option<Vec<u8>>,
    /// The rules, innermost first: they are checked in this order.
    pub wrappers: Vec<Wrapper>,
}

/// The outcome of checking one rule: the bump it captured, if any.
pub open spec fn wrapper_check(w: Wrapper, acc: AccountInfo, program_id: Seq<u8>) -> Result<
    Option<u8>,
    ErrorView,
> {
    match w {
        Wrapper::Mutable => if acc.is_writable {
            Ok(None)
        } else {
            Err(fault(ErrorCode::ConstraintMut))
        },
        Wrapper::Executable => if acc.executable {
            Ok(None)
        } else {
            Err(fault(ErrorCode::ConstraintExecutable))
        },
        Wrapper::OwnedBy { owner } => if acc.owner@ == owner@ {
            Ok(None)
        } else {
            Err(keyed_fault(ErrorCode::ConstraintOwner, acc.owner@, owner@))
        },
        Wrapper::AddressDerived { seeds } => match derived_address(seeds_view(seeds@), program_id) {
            Some((k, b)) => if k == acc.key@ {
                Ok(Some(b))
            } else {
                Err(keyed_fault(ErrorCode::ConstraintSeeds, acc.key@, k))
            },
            None => Err(fault(ErrorCode::ConstraintSeeds)),
        },
        Wrapper::RelatesTo { .. } => Ok(None),
    }
}

/// The outcome of checking a chain of rules in order, stopping at the first
/// failure; the bump is the last one captured.
pub open spec fn chain_check(ws: Seq<Wrapper>, acc: AccountInfo, program_id: Seq<u8>) -> Result<
    Option<u8>,
    ErrorView,
>
    decreases ws.len(),
{
    if ws.len() == 0 {
        Ok(None)
    } else {
        match chain_check(ws.drop_last(), acc, program_id) {
            Err(e) => Err(e),
            Ok(b) => match wrapper_check(ws.last(), acc, program_id) {
                Err(e) => Err(e),
                Ok(nb) => Ok(
                    if nb is Some {
                        nb
                    } else {
                        b
                    },
                ),
            },
        }
    }
}

/// The checks of a slot's own kind: signature, then discriminator.
pub open spec fn base_check(d: SlotDeclaration, acc: AccountInfo) -> Result<(), ErrorView> {
    if d.signer && !acc.is_signer {
        Err(fault(ErrorCode::AccountNotSigner))
    } else {
        match d.discriminator {
            Some(disc) => if acc.data@.len() < disc@.len() {
                Err(fault(ErrorCode::AccountDiscriminatorNotFound))
            } else if acc.data@.subrange(0, disc@.len() as int) != disc@ {
                Err(fault(ErrorCode::AccountDiscriminatorMismatch))
            } else {
                Ok(())
            },
            None => Ok(()),
        }
    }
}

/// The outcome of all of a slot's own checks on an account, unattributed.
pub open spec fn slot_check(d: SlotDeclaration, acc: AccountInfo, program_id: Seq<u8>) -> Result<
    Option<u8>,
    ErrorView,
> {
    if d.init {
        Ok(None)
    } else {
        match base_check(d, acc) {
            Err(e) => Err(e),
            Ok(_) => chain_check(d.wrappers@, acc, program_id),
        }
    }
}

/// Whether `a` starts with `prefix`.
fn starts_with(a: &Vec<u8>, prefix: &Vec<u8>) -> (r: bool)
    requires
        prefix@.len() <= a@.len(),
    ensures
        r == (a@.subrange(0, prefix@.len() as int) == prefix@),
{
    let mut i: usize = 0;
    while i < prefix.len()
        invariant
            prefix@.len() <= a@.len(),
            0 <= i <= prefix@.len(),
            forall|j: int| 0 <= j < i ==> a@[j] == prefix@[j],
        decreases prefix@.len() - i,
    {
        if a[i] != prefix[i] {
            assert(a@.subrange(0, prefix@.len() as int)[i as int] != prefix@[i as int]);
            return false;
        }
        i = i + 1;
    }
    assert(a@.subrange(0, prefix@.len() as int) =~= prefix@);
    true
}

/// Checks one rule on an account.
pub fn check_wrapper(w: &Wrapper, acc: &AccountInfo, program_id: &Pubkey) -> (r: Result<
    Option<u8>,
    Error,
>)
    ensures
        match wrapper_check(*w, *acc, program_id@) {
            Ok(b) => r == Ok::<Option<u8>, Error>(b),
            Err(e) => r matches Err(x) && x@ == e,
        },
{
    match w {
        Wrapper::Mutable => {
            if acc.is_writable {
                Ok(None)
            } else {
                Err(Error::new(ErrorCode::ConstraintMut))
            }
        },
        Wrapper::Executable => {
            if acc.executable {
                Ok(None)
            } else {
                Err(Error::new(ErrorCode::ConstraintExecutable))
            }
        },
        Wrapper::OwnedBy { owner } => {
            if acc.owner.key_eq(owner) {
                Ok(None)
            } else {
                Err(Error::new(ErrorCode::ConstraintOwner).with_pubkeys((acc.owner, *owner)))
            }
        },
        Wrapper::AddressDerived { seeds } => {
            match find_program_address(seeds, program_id) {
                Some((k, b)) => {
                    if k.key_eq(&acc.key) {
                        Ok(Some(b))
                    } else {
                        Err(Error::new(ErrorCode::ConstraintSeeds).with_pubkeys((acc.key, k)))
                    }
                },
                None => Err(Error::new(ErrorCode::ConstraintSeeds)),
            }
        },
        Wrapper::RelatesTo { .. } => Ok(None),
    }
}

/// Checks a slot's own rules on an account: signature, discriminator, then
/// each wrapper innermost first, stopping at the first failure.
pub fn check_slot(d: &SlotDeclaration, acc: &AccountInfo, program_id: &Pubkey) -> (r: Result<
    Option<u8>,
    Error,
>)
    ensures
        match slot_check(*d, *acc, program_id@) {
            Ok(b) => r == Ok::<Option<u8>, Error>(b),
            Err(e) => r matches Err(x) && x@ == e,
        },
{
    if d.init {
        return Ok(None);
    }
    if d.signer && !acc.is_signer {
        return Err(Error::new(ErrorCode::AccountNotSigner));
    }
    match &d.discriminator {
        Some(disc) => {
            if acc.data.len() < disc.len() {
                return Err(Error::new(ErrorCode::AccountDiscriminatorNotFound));
            }
            if !starts_with(&acc.data, disc) {
                return Err(Error::new(ErrorCode::AccountDiscriminatorMismatch));
            }
        },
        None => {},
    }
    let mut bump: Option<u8> = None;
    let mut k: usize = 0;
    while k < d.wrappers.len()
        invariant
            0 <= k <= d.wrappers@.len(),
            !d.init,
            base_check(*d, *acc) is Ok,
            chain_check(d.wrappers@.subrange(0, k as int), *acc, program_id@) == Ok::<
                Option<u8>,
                ErrorView,
            >(bump),
        decreases d.wrappers@.len() - k,
    {
        let ghost prefix = d.wrappers@.subrange(0, k as int);
        let ghost next = d.wrappers@.subrange(0, k + 1);
        assert(next.drop_last() =~= prefix);
        match check_wrapper(&d.wrappers[k], acc, program_id) {
            Err(e) => {
                proof {
                    lemma_chain_stops(d.wrappers@, *acc, program_id@, k + 1);
                }
                return Err(e);
            },
            Ok(nb) => {
                if nb.is_some() {
                    bump = nb;
                }
            },
        }
        k = k + 1;
    }
    assert(d.wrappers@.subrange(0, d.wrappers@.len() as int) =~= d.wrappers@);
    Ok(bump)
}

/// A failure in a prefix of a chain is the failure of the whole chain.
proof fn lemma_chain_stops(ws: Seq<Wrapper>, acc: AccountInfo, program_id: Seq<u8>, n: int)
    requires
        0 <= n <= ws.len(),
        chain_check(ws.subrange(0, n), acc, program_id) is Err,
    ensures
        chain_check(ws, acc, program_id) == chain_check(ws.subrange(0, n), acc, program_id),
    decreases ws.len() - n,
{
    if n < ws.len() {
        let next = ws.subrange(0, n + 1);
        assert(next.drop_last() =~= ws.subrange(0, n));
        lemma_chain_stops(ws, acc, program_id, n + 1);
    } else {
        assert(ws.subrange(0, n) =~= ws);
    }
}

} // verus!

verus! {

/// Why a list of slot declarations is no schema.
#[derive(Clone, Debug)]
pub enum SchemaError {
    /// A slot being initialized carries wrappers, which initialization ignores.
    WrapperWithInit { slot: String },
    /// Two slots share this name.
    DuplicateName { name: String },
    /// A relationship on `slot` names `target`, which is no slot.
    UnknownTarget { slot: String, target: String },
}

/// An ordered list of slot declarations with distinct names, whose
/// relationships each name one of its slots.
#[derive(Clone, Debug)]
pub struct Schema {
    slots: Vec<SlotDeclaration>,
}

/// Slot names are distinct.
pub open spec fn names_distinct(slots: Seq<SlotDeclaration>) -> bool {
    forall|i: int, j: int|
        0 <= i < j < slots.len() ==> #[trigger] slots[i].name@ != #[trigger] slots[j].name@
}

/// Some slot has this name.
pub open spec fn has_slot(slots: Seq<SlotDeclaration>, name: Seq<char>) -> bool {
    exists|t: int| 0 <= t < slots.len() && #[trigger] slots[t].name@ == name
}

/// Every relationship names a slot.
pub open spec fn targets_known(slots: Seq<SlotDeclaration>) -> bool {
    forall|i: int, k: int|
        0 <= i < slots.len() && 0 <= k < slots[i].wrappers@.len() ==> (
        #[trigger] slots[i].wrappers@[k] matches Wrapper::RelatesTo { target, .. } ==> has_slot(
            slots,
            target@,
        ))
}

/// The slots form a schema.
pub open spec fn schema_wf(slots: Seq<SlotDeclaration>) -> bool {
    init_unwrapped(slots) && names_distinct(slots) && targets_known(slots)
}

/// No slot being initialized carries wrappers.
pub open spec fn init_unwrapped(slots: Seq<SlotDeclaration>) -> bool {
    forall|i: int| 0 <= i < slots.len() && #[trigger] slots[i].init ==> slots[i].wrappers@.len() == 0
}

impl View for Schema {
    type V = Seq<SlotDeclaration>;

    closed spec fn view(&self) -> Seq<SlotDeclaration> {
        self.slots@
    }
}

impl Schema {
    /// The schema is well formed.
    pub open spec fn wf(&self) -> bool {
        schema_wf(self@)
    }

    /// Builds a schema from slot declarations in order: fails on the first
    /// slot being initialized that carries wrappers, then on the first
    /// repeated name, then on the first relationship whose target is no slot.
    pub fn compile(slots: Vec<SlotDeclaration>) -> (r: Result<Schema, SchemaError>)
        ensures
            r is Ok <==> schema_wf(slots@),
            r matches Ok(s) ==> s@ == slots@ && s.wf(),
            r matches Err(SchemaError::WrapperWithInit { slot }) ==> exists|i: int|
                0 <= i < slots@.len() && #[trigger] slots@[i].init && slots@[i].wrappers@.len() > 0
                && slots@[i].name == slot && forall|j: int| 0 <= j < i ==> !(#[trigger] slots@[j].init
                && slots@[j].wrappers@.len() > 0),
            r matches Err(SchemaError::DuplicateName { name }) ==> init_unwrapped(slots@) && !names_distinct(slots@)
                && exists|i: int| 0 <= i < slots@.len() && slots@[i].name == name,
            r matches Err(SchemaError::UnknownTarget { slot, target }) ==> init_unwrapped(slots@) && names_distinct(slots@)
                && !has_slot(slots@, target@) && exists|i: int, k: int|
                0 <= i < slots@.len() && 0 <= k < slots@[i].wrappers@.len() && slots@[i].name
                == slot && (#[trigger] slots@[i].wrappers@[k] matches Wrapper::RelatesTo { target: t, .. }
                && t == target),
    {
        let n = slots.len();
        let mut i: usize = 0;
        while i < n
            invariant
                n == slots@.len(),
                0 <= i <= n,
                forall|j: int| 0 <= j < i ==> !(#[trigger] slots@[j].init && slots@[j].wrappers@.len() > 0),
            decreases n - i,
        {
            if slots[i].init && slots[i].wrappers.len() > 0 {
                return Err(SchemaError::WrapperWithInit { slot: slots[i].name.clone() });
            }
            i = i + 1;
        }
        let mut i: usize = 0;
        while i < n
            invariant
                n == slots@.len(),
                0 <= i <= n,
                init_unwrapped(slots@),
                forall|a: int, b: int|
                    0 <= a < b < n && a < i ==> #[trigger] slots@[a].name@ != #[trigger] slots@[b].name@,
            decreases n - i,
        {
            let mut j: usize = i + 1;
            while j < n
                invariant
                    n == slots@.len(),
                    0 <= i < n,
                    i + 1 <= j <= n,
                    init_unwrapped(slots@),
                    forall|a: int, b: int|
                        0 <= a < b < n && a < i ==> #[trigger] slots@[a].name@
                            != #[trigger] slots@[b].name@,
                    forall|b: int| i < b < j ==> slots@[i as int].name@ != #[trigger] slots@[b].name@,
                decreases n - j,
            {
                if slots[i].name == slots[j].name {
                    return Err(SchemaError::DuplicateName { name: slots[i].name.clone() });
                }
                j = j + 1;
            }
            i = i + 1;
        }
        let mut i: usize = 0;
        while i < n
            invariant
                n == slots@.len(),
                0 <= i <= n,
                init_unwrapped(slots@),
                names_distinct(slots@),
                forall|a: int, k: int|
                    0 <= a < i && 0 <= k < slots@[a].wrappers@.len() ==> (
                    #[trigger] slots@[a].wrappers@[k] matches Wrapper::RelatesTo { target, .. }
                        ==> has_slot(slots@, target@)),
            decreases n - i,
        {
            let m = slots[i].wrappers.len();
            let mut k: usize = 0;
            while k < m
                invariant
                    n == slots@.len(),
                    0 <= i < n,
                    m == slots@[i as int].wrappers@.len(),
                    0 <= k <= m,
                    init_unwrapped(slots@),
                    names_distinct(slots@),
                    forall|a: int, k2: int|
                        0 <= a < i && 0 <= k2 < slots@[a].wrappers@.len() ==> (
                        #[trigger] slots@[a].wrappers@[k2] matches Wrapper::RelatesTo { target, .. }
                            ==> has_slot(slots@, target@)),
                    forall|k2: int|
                        0 <= k2 < k ==> (
                        #[trigger] slots@[i as int].wrappers@[k2] matches Wrapper::RelatesTo {
                            target,
                            ..
                        } ==> has_slot(slots@, target@)),
                decreases m - k,
            {
                match &slots[i].wrappers[k] {
                    Wrapper::RelatesTo { target, .. } => {
                        match find_slot(&slots, target) {
                            Some(_) => {},
                            None => {
                                return Err(
                                    SchemaError::UnknownTarget {
                                        slot: slots[i].name.clone(),
                                        target: target.clone(),
                                    },
                                );
                            },
                        }
                    },
                    _ => {},
                }
                k = k + 1;
            }
            i = i + 1;
        }
        Ok(Schema { slots })
    }

    /// The slot declarations, in order.
    pub fn slots(&self) -> (r: &Vec<SlotDeclaration>)
        ensures
            r@ == self@,
    {
        &self.slots
    }
}

/// The position of the slot with the given name.
pub fn find_slot(slots: &Vec<SlotDeclaration>, name: &String) -> (r: Option<usize>)
    ensures
        r is None <==> !has_slot(slots@, name@),
        r matches Some(t) ==> t < slots@.len() && slots@[t as int].name@ == name@,
        r matches Some(t) ==> forall|u: int| 0 <= u < t ==> #[trigger] slots@[u].name@ != name@,
{
    let mut t: usize = 0;
    while t < slots.len()
        invariant
            0 <= t <= slots@.len(),
            forall|u: int| 0 <= u < t ==> #[trigger] slots@[u].name@ != name@,
        decreases slots@.len() - t,
    {
        if slots[t].name == *name {
            return Some(t);
        }
        t = t + 1;
    }
    None
}

/// How one slot was filled: the position of its account in the supplied
/// list (`None` for a left-out optional slot) and the bump it captured.
#[derive(Clone, Copy, Debug, PartialEq, Eq, Structural)]
pub struct ResolvedSlot {
    pub account: Option<usize>,
    pub bump: Option<u8>,
}

/// The outcome of a validation pass: one resolved slot per declared slot,
/// and the position where the unconsumed accounts begin.
#[derive(Clone, Debug)]
pub struct Resolved {
    pub slots: Vec<ResolvedSlot>,
    pub remaining: usize,
}

/// A left-out optional slot.
pub open spec fn absent() -> ResolvedSlot {
    ResolvedSlot { account: None, bump: None }
}

/// Resolution of slots `i..` from position `pos` of the account list, after
/// the slots in `out` were resolved.
pub open spec fn resolve_from(
    slots: Seq<SlotDeclaration>,
    accs: Seq<AccountInfo>,
    program_id: Seq<u8>,
    i: nat,
    pos: nat,
    out: Seq<ResolvedSlot>,
) -> Result<(Seq<ResolvedSlot>, nat), ErrorView>
    decreases slots.len() - i,
{
    if i >= slots.len() {
        Ok((out, pos))
    } else {
        let d = slots[i as int];
        if pos >= accs.len() {
            if d.optional {
                resolve_from(slots, accs, program_id, i + 1, pos, out.push(absent()))
            } else {
                Err(named(fault(ErrorCode::MissingAccount), d.name))
            }
        } else if d.optional && accs[pos as int].key@ == program_id {
            resolve_from(slots, accs, program_id, i + 1, pos + 1, out.push(absent()))
        } else {
            match slot_check(d, accs[pos as int], program_id) {
                Err(e) => Err(named(e, d.name)),
                Ok(b) => resolve_from(
                    slots,
                    accs,
                    program_id,
                    i + 1,
                    pos + 1,
                    out.push(ResolvedSlot { account: Some(pos as usize), bump: b }),
                ),
            }
        }
    }
}

/// Phase one: each slot in declared order takes the next account and is
/// checked on it; the first failure, attributed to its slot, ends the pass.
pub open spec fn resolve_spec(
    slots: Seq<SlotDeclaration>,
    accs: Seq<AccountInfo>,
    program_id: Seq<u8>,
) -> Result<(Seq<ResolvedSlot>, nat), ErrorView> {
    resolve_from(slots, accs, program_id, 0, 0, Seq::empty())
}

/// Phase one: resolves and checks every slot of `schema` in order against
/// `accounts`.
pub fn resolve(schema: &Schema, accounts: &Vec<AccountInfo>, program_id: &Pubkey) -> (r: Result<
    Resolved,
    Error,
>)
    ensures
        match resolve_spec(schema@, accounts@, program_id@) {
            Ok((s, n)) => r matches Ok(v) && v.slots@ == s && v.remaining == n,
            Err(e) => r matches Err(x) && x@ == e,
        },
{
    let slots = schema.slots();
    let n = slots.len();
    let mut out: Vec<ResolvedSlot> = Vec::new();
    let mut pos: usize = 0;
    let mut i: usize = 0;
    while i < n
        invariant
            n == schema@.len(),
            slots@ == schema@,
            0 <= i <= n,
            pos <= accounts@.len(),
            resolve_spec(schema@, accounts@, program_id@) == resolve_from(
                schema@,
                accounts@,
                program_id@,
                i as nat,
                pos as nat,
                out@,
            ),
        decreases n - i,
    {
        let d = &slots[i];
        if pos >= accounts.len() {
            if d.optional {
                out.push(ResolvedSlot { account: None, bump: None });
            } else {
                return Err(Error::new(ErrorCode::MissingAccount).with_account_name(&d.name));
            }
        } else {
            let acc = &accounts[pos];
            if d.optional && acc.key.key_eq(program_id) {
                out.push(ResolvedSlot { account: None, bump: None });
            } else {
                match check_slot(d, acc, program_id) {
                    Err(e) => {
                        return Err(e.with_account_name(&d.name));
                    },
                    Ok(b) => {
                        out.push(ResolvedSlot { account: Some(pos), bump: b });
                    },
                }
            }
            pos = pos + 1;
        }
        i = i + 1;
    }
    Ok(Resolved { slots: out, remaining: pos })
}

} // verus!

verus! {

/// `(i, j)` is the first pair, in declared order, at which `p` holds.
pub open spec fn first_pair(p: spec_fn(int, int) -> bool, i: int, j: int) -> bool {
    &&& p(i, j)
    &&& forall|a: int, b: int| (a < i || (a == i && b < j)) ==> !#[trigger] p(a, b)
}

proof fn lemma_first_pair_unique(p: spec_fn(int, int) -> bool, i: int, j: int, a: int, b: int)
    requires
        first_pair(p, i, j),
        first_pair(p, a, b),
    ensures
        i == a && j == b,
{
    if a < i || (a == i && b < j) {
        assert(!p(a, b));
    } else if i < a || (i == a && j < b) {
        assert(!p(i, j));
    }
}

/// Where `p` holds at some pair and only at pairs of naturals, it has a
/// first pair.
proof fn lemma_first_pair_exists(p: spec_fn(int, int) -> bool, a: int, b: int)
    requires
        p(a, b),
        forall|x: int, y: int| #[trigger] p(x, y) ==> x >= 0 && y >= 0,
    ensures
        exists|i: int, j: int| first_pair(p, i, j),
    decreases a, b,
{
    if exists|x: int, y: int| (x < a || (x == a && y < b)) && #[trigger] p(x, y) {
        let (x, y) = choose|x: int, y: int| (x < a || (x == a && y < b)) && #[trigger] p(x, y);
        lemma_first_pair_exists(p, x, y);
    } else {
        assert(first_pair(p, a, b));
    }
}

/// The resolved slots fit the schema and the account list.
pub open spec fn resolved_fits(
    slots: Seq<SlotDeclaration>,
    accs: Seq<AccountInfo>,
    res: Seq<ResolvedSlot>,
) -> bool {
    &&& res.len() == slots.len()
    &&& forall|i: int| 0 <= i < res.len() ==> (#[trigger] res[i].account matches Some(a) ==> a < accs.len())
}

proof fn lemma_resolve_fits(
    slots: Seq<SlotDeclaration>,
    accs: Seq<AccountInfo>,
    program_id: Seq<u8>,
    i: nat,
    pos: nat,
    out: Seq<ResolvedSlot>,
)
    requires
        i <= slots.len(),
        out.len() == i,
        pos <= accs.len(),
        forall|k: int| 0 <= k < out.len() ==> (#[trigger] out[k].account matches Some(a) ==> a < accs.len()),
    ensures
        resolve_from(slots, accs, program_id, i, pos, out) matches Ok((s, n)) ==> resolved_fits(slots, accs, s) && n <= accs.len(),
    decreases slots.len() - i,
{
    if i < slots.len() {
        let d = slots[i as int];
        if pos >= accs.len() {
            if d.optional {
                let o = out.push(absent());
                assert forall|k: int| 0 <= k < o.len() implies (#[trigger] o[k].account matches Some(a) ==> a < accs.len()) by {
                    if k < out.len() { assert(o[k] == out[k]); }
                }
                lemma_resolve_fits(slots, accs, program_id, i + 1, pos, o);
            }
        } else if d.optional && accs[pos as int].key@ == program_id {
            let o = out.push(absent());
            assert forall|k: int| 0 <= k < o.len() implies (#[trigger] o[k].account matches Some(a) ==> a < accs.len()) by {
                if k < out.len() { assert(o[k] == out[k]); }
            }
            lemma_resolve_fits(slots, accs, program_id, i + 1, pos + 1, o);
        } else {
            match slot_check(d, accs[pos as int], program_id) {
                Err(e) => {},
                Ok(b) => {
                    let o = out.push(ResolvedSlot { account: Some(pos as usize), bump: b });
                    assert forall|k: int| 0 <= k < o.len() implies (#[trigger] o[k].account matches Some(a) ==> a < accs.len()) by {
                        if k < out.len() { assert(o[k] == out[k]); }
                    }
                    lemma_resolve_fits(slots, accs, program_id, i + 1, pos + 1, o);
                },
            }
        }
    }
}

/// A successful resolution fits the schema and the account list.
pub proof fn lemma_resolved_fits(slots: Seq<SlotDeclaration>, accs: Seq<AccountInfo>, program_id: Seq<u8>)
    ensures
        resolve_spec(slots, accs, program_id) matches Ok((s, n)) ==> resolved_fits(slots, accs, s) && n <= accs.len(),
{
    lemma_resolve_fits(slots, accs, program_id, 0, 0, Seq::empty());
}

/// The slot's rules include `Mutable`.
pub open spec fn declared_writable(d: SlotDeclaration) -> bool {
    exists|k: int| 0 <= k < d.wrappers@.len() && #[trigger] d.wrappers@[k] is Mutable
}

/// Slots `i < j` are both declared writable, neither opts out, and both hold
/// accounts with the same key.
pub open spec fn dup_conflict(
    slots: Seq<SlotDeclaration>,
    accs: Seq<AccountInfo>,
    res: Seq<ResolvedSlot>,
    i: int,
    j: int,
) -> bool {
    &&& 0 <= i < j < slots.len()
    &&& declared_writable(slots[i]) && declared_writable(slots[j])
    &&& !slots[i].dup && !slots[j].dup
    &&& res[i].account is Some && res[j].account is Some
    &&& accs[res[i].account->0 as int].key@ == accs[res[j].account->0 as int].key@
}

/// `dup_conflict` as a predicate on pairs.
pub open spec fn dup_pred(
    slots: Seq<SlotDeclaration>,
    accs: Seq<AccountInfo>,
    res: Seq<ResolvedSlot>,
) -> spec_fn(int, int) -> bool {
    |a: int, b: int| dup_conflict(slots, accs, res, a, b)
}

/// The duplicate-writable failure, if any: at the first conflicting pair,
/// naming both slots.
pub open spec fn duplicate_spec(
    slots: Seq<SlotDeclaration>,
    accs: Seq<AccountInfo>,
    res: Seq<ResolvedSlot>,
) -> Option<ErrorView> {
    let p = dup_pred(slots, accs, res);
    if exists|a: int, b: int| #[trigger] p(a, b) {
        let (i, j) = choose|i: int, j: int| first_pair(p, i, j);
        Some(
            ErrorView {
                code: ErrorCode::DuplicateMutableAccount,
                keys: None,
                names: seq![slots[i].name, slots[j].name],
            },
        )
    } else {
        None
    }
}

/// Whether the slot's rules include `Mutable`.
pub fn is_declared_writable(d: &SlotDeclaration) -> (r: bool)
    ensures
        r == declared_writable(*d),
{
    let mut k: usize = 0;
    while k < d.wrappers.len()
        invariant
            0 <= k <= d.wrappers@.len(),
            forall|m: int| 0 <= m < k ==> !(#[trigger] d.wrappers@[m] is Mutable),
        decreases d.wrappers@.len() - k,
    {
        match &d.wrappers[k] {
            Wrapper::Mutable => {
                return true;
            },
            _ => {},
        }
        k = k + 1;
    }
    false
}

/// Phase two, first part: fails on the first pair of slots, in declared
/// order, that are both writable, both hold the same account key, and
/// neither of which opts out with `dup`.
pub fn check_duplicates(schema: &Schema, accounts: &Vec<AccountInfo>, resolved: &Vec<ResolvedSlot>) -> (r:
    Result<(), Error>)
    requires
        resolved_fits(schema@, accounts@, resolved@),
    ensures
        match duplicate_spec(schema@, accounts@, resolved@) {
            None => r is Ok,
            Some(e) => r matches Err(x) && x@ == e,
        },
{
    let ghost p = dup_pred(schema@, accounts@, resolved@);
    let slots = schema.slots();
    let n = slots.len();
    let mut i: usize = 0;
    while i < n
        invariant
            n == schema@.len(),
            slots@ == schema@,
            resolved_fits(schema@, accounts@, resolved@),
            p == dup_pred(schema@, accounts@, resolved@),
            0 <= i <= n,
            forall|a: int, b: int| a < i ==> !#[trigger] p(a, b),
        decreases n - i,
    {
        let di = &slots[i];
        if !di.dup && is_declared_writable(di) && resolved[i].account.is_some() {
            let ai = resolved[i].account.unwrap();
            let mut j: usize = i + 1;
            while j < n
                invariant
                    n == schema@.len(),
                    slots@ == schema@,
                    resolved_fits(schema@, accounts@, resolved@),
                    p == dup_pred(schema@, accounts@, resolved@),
                    0 <= i < n,
                    i + 1 <= j <= n,
                    resolved@[i as int].account == Some(ai),
                    declared_writable(schema@[i as int]),
                    !schema@[i as int].dup,
                    *di == schema@[i as int],
                    forall|a: int, b: int| (a < i || (a == i && b < j)) ==> !#[trigger] p(a, b),
                decreases n - j,
            {
                let dj = &slots[j];
                if !dj.dup && is_declared_writable(dj) && resolved[j].account.is_some() {
                    let aj = resolved[j].account.unwrap();
                    if accounts[ai].key.key_eq(&accounts[aj].key) {
                        let e = Error::new(ErrorCode::DuplicateMutableAccount).with_account_names(
                            &di.name,
                            &dj.name,
                        );
                        proof {
                            assert(p(i as int, j as int));
                            assert(first_pair(p, i as int, j as int));
                            let (x, y) = choose|x: int, y: int| first_pair(p, x, y);
                            lemma_first_pair_unique(p, i as int, j as int, x, y);
                            assert(e@ == duplicate_spec(schema@, accounts@, resolved@)->0);
                        }
                        return Err(e);
                    }
                }
                j = j + 1;
            }
        }
        i = i + 1;
    }
    assert(forall|a: int, b: int| !#[trigger] p(a, b)) by {
        assert forall|a: int, b: int| !#[trigger] p(a, b) by {
            if a >= n as int {
                assert(!p(a, b));
            }
        }
    }
    Ok(())
}

} // verus!

verus! {

/// The position of the slot with the given name.
pub open spec fn slot_index(slots: Seq<SlotDeclaration>, name: Seq<char>) -> int {
    choose|t: int| 0 <= t < slots.len() && #[trigger] slots[t].name@ == name
}

/// The failure of the relationship at rule `k` of slot `i`, if any: the
/// target slot was left out, the data is too short to hold the key, or the
/// key held at `offset` is not the target slot's key.
pub open spec fn relation_fault(
    slots: Seq<SlotDeclaration>,
    accs: Seq<AccountInfo>,
    res: Seq<ResolvedSlot>,
    i: int,
    k: int,
) -> Option<ErrorView> {
    if 0 <= i < slots.len() && 0 <= k < slots[i].wrappers@.len() && res[i].account is Some {
        match slots[i].wrappers@[k] {
            Wrapper::RelatesTo { target, offset } => {
                let t = slot_index(slots, target@);
                match res[t].account {
                    None => Some(named(fault(ErrorCode::ConstraintAccountIsNone), slots[t].name)),
                    Some(b) => {
                        let data = accs[res[i].account->0 as int].data@;
                        if offset + PUBKEY_BYTES > data.len() {
                            Some(named(fault(ErrorCode::AccountDidNotDeserialize), slots[i].name))
                        } else if data.subrange(offset as int, offset + PUBKEY_BYTES)
                            != accs[b as int].key@ {
                            Some(named(fault(ErrorCode::ConstraintHasOne), slots[i].name))
                        } else {
                            None
                        }
                    },
                }
            },
            _ => None,
        }
    } else {
        None
    }
}

/// Whether the relationship at rule `k` of slot `i` fails.
pub open spec fn relation_pred(
    slots: Seq<SlotDeclaration>,
    accs: Seq<AccountInfo>,
    res: Seq<ResolvedSlot>,
) -> spec_fn(int, int) -> bool {
    |a: int, b: int| relation_fault(slots, accs, res, a, b) is Some
}

/// The relationship failure, if any: the first in slot order, then rule order.
pub open spec fn relations_spec(
    slots: Seq<SlotDeclaration>,
    accs: Seq<AccountInfo>,
    res: Seq<ResolvedSlot>,
) -> Option<ErrorView> {
    let p = relation_pred(slots, accs, res);
    if exists|a: int, b: int| #[trigger] p(a, b) {
        let (i, k) = choose|i: int, k: int| first_pair(p, i, k);
        relation_fault(slots, accs, res, i, k)
    } else {
        None
    }
}

/// Whether the bytes of `data` at `offset` are the key's bytes.
fn field_equals(data: &Vec<u8>, offset: usize, key: &Pubkey) -> (r: bool)
    requires
        offset + PUBKEY_BYTES <= data@.len(),
    ensures
        r == (data@.subrange(offset as int, offset + PUBKEY_BYTES) == key@),
{
    let ghost field = data@.subrange(offset as int, offset + PUBKEY_BYTES);
    let bytes = key.as_array();
    let len = data.len();
    let mut i: usize = 0;
    while i < PUBKEY_BYTES
        invariant
            len == data@.len(),
            offset + PUBKEY_BYTES <= data@.len(),
            bytes@ == key@,
            key@.len() == PUBKEY_BYTES,
            field == data@.subrange(offset as int, offset + PUBKEY_BYTES),
            0 <= i <= PUBKEY_BYTES,
            forall|j: int| 0 <= j < i ==> field[j] == key@[j],
        decreases PUBKEY_BYTES - i,
    {
        if data[offset + i] != bytes[i] {
            assert(field[i as int] != key@[i as int]);
            return false;
        }
        i = i + 1;
    }
    assert(field =~= key@);
    true
}

/// With distinct names, the first slot of a name is the slot of that name.
proof fn lemma_slot_index(slots: Seq<SlotDeclaration>, name: Seq<char>, t: int)
    requires
        names_distinct(slots),
        0 <= t < slots.len(),
        slots[t].name@ == name,
    ensures
        slot_index(slots, name) == t,
{
    let u = slot_index(slots, name);
    assert(0 <= u < slots.len() && slots[u].name@ == name);
    if u < t {
        assert(slots[u].name@ != slots[t].name@);
    } else if t < u {
        assert(slots[t].name@ != slots[u].name@);
    }
}

/// Checks the relationship at rule `k` of slot `i`.
fn check_relation(
    schema: &Schema,
    accounts: &Vec<AccountInfo>,
    resolved: &Vec<ResolvedSlot>,
    i: usize,
    k: usize,
) -> (r: Result<(), Error>)
    requires
        schema.wf(),
        resolved_fits(schema@, accounts@, resolved@),
        i < schema@.len(),
        k < schema@[i as int].wrappers@.len(),
    ensures
        match relation_fault(schema@, accounts@, resolved@, i as int, k as int) {
            None => r is Ok,
            Some(e) => r matches Err(x) && x@ == e,
        },
{
    let slots = schema.slots();
    let ai = match resolved[i].account {
        Some(a) => a,
        None => {
            return Ok(());
        },
    };
    match &slots[i].wrappers[k] {
        Wrapper::RelatesTo { target, offset } => {
            let t = match find_slot(slots, target) {
                Some(t) => t,
                None => {
                    proof {
                        assert(slots@[i as int].wrappers@[k as int] matches Wrapper::RelatesTo { .. });
                    }
                    return Ok(());
                },
            };
            proof {
                lemma_slot_index(schema@, target@, t as int);
            }
            match resolved[t].account {
                None => Err(Error::new(ErrorCode::ConstraintAccountIsNone).with_account_name(&slots[t].name)),
                Some(b) => {
                    let data = &accounts[ai].data;
                    if *offset > data.len() || data.len() - *offset < PUBKEY_BYTES {
                        return Err(
                            Error::new(ErrorCode::AccountDidNotDeserialize).with_account_name(
                                &slots[i].name,
                            ),
                        );
                    }
                    if !field_equals(data, *offset, &accounts[b].key) {
                        return Err(Error::new(ErrorCode::ConstraintHasOne).with_account_name(&slots[i].name));
                    }
                    Ok(())
                },
            }
        },
        _ => Ok(()),
    }
}

/// Phase two, second part: checks every relationship of every supplied
/// slot, in slot order then rule order, against the target slot's key.
pub fn check_relations(schema: &Schema, accounts: &Vec<AccountInfo>, resolved: &Vec<ResolvedSlot>) -> (r:
    Result<(), Error>)
    requires
        schema.wf(),
        resolved_fits(schema@, accounts@, resolved@),
    ensures
        match relations_spec(schema@, accounts@, resolved@) {
            None => r is Ok,
            Some(e) => r matches Err(x) && x@ == e,
        },
{
    let ghost p = relation_pred(schema@, accounts@, resolved@);
    let slots = schema.slots();
    let n = slots.len();
    let mut i: usize = 0;
    while i < n
        invariant
            n == schema@.len(),
            slots@ == schema@,
            schema.wf(),
            resolved_fits(schema@, accounts@, resolved@),
            p == relation_pred(schema@, accounts@, resolved@),
            0 <= i <= n,
            forall|a: int, b: int| a < i ==> !#[trigger] p(a, b),
        decreases n - i,
    {
        let m = slots[i].wrappers.len();
        let mut k: usize = 0;
        while k < m
            invariant
                n == schema@.len(),
                slots@ == schema@,
                schema.wf(),
                resolved_fits(schema@, accounts@, resolved@),
                p == relation_pred(schema@, accounts@, resolved@),
                0 <= i < n,
                m == schema@[i as int].wrappers@.len(),
                0 <= k <= m,
                forall|a: int, b: int| (a < i || (a == i && b < k)) ==> !#[trigger] p(a, b),
            decreases m - k,
        {
            match check_relation(schema, accounts, resolved, i, k) {
                Err(e) => {
                    proof {
                        assert(p(i as int, k as int));
                        assert(first_pair(p, i as int, k as int));
                        let (x, y) = choose|x: int, y: int| first_pair(p, x, y);
                        lemma_first_pair_unique(p, i as int, k as int, x, y);
                    }
                    return Err(e);
                },
                Ok(()) => {},
            }
            k = k + 1;
        }
        proof {
            assert forall|a: int, b: int| (a < i + 1) implies !#[trigger] p(a, b) by {
                if a == i && b >= m {
                    assert(relation_fault(schema@, accounts@, resolved@, a, b) is None);
                }
            }
        }
        i = i + 1;
    }
    assert(forall|a: int, b: int| !#[trigger] p(a, b)) by {
        assert forall|a: int, b: int| !#[trigger] p(a, b) by {
            if a >= n as int {
                assert(relation_fault(schema@, accounts@, resolved@, a, b) is None);
            }
        }
    }
    Ok(())
}

/// The outcome of a whole validation pass: phase one, then the duplicate
/// check, then the relationship checks; the first failure is the outcome.
pub open spec fn validate_spec(
    slots: Seq<SlotDeclaration>,
    accs: Seq<AccountInfo>,
    program_id: Seq<u8>,
) -> Result<(Seq<ResolvedSlot>, nat), ErrorView> {
    match resolve_spec(slots, accs, program_id) {
        Err(e) => Err(e),
        Ok((res, n)) => match duplicate_spec(slots, accs, res) {
            Some(e) => Err(e),
            None => match relations_spec(slots, accs, res) {
                Some(e) => Err(e),
                None => Ok((res, n)),
            },
        },
    }
}

/// Validates `accounts` against `schema` for the program `program_id`:
/// resolves and checks each slot in order, then fails on duplicate writable
/// accounts, then on broken relationships.
pub fn validate(schema: &Schema, accounts: &Vec<AccountInfo>, program_id: &Pubkey) -> (r: Result<
    Resolved,
    Error,
>)
    requires
        schema.wf(),
    ensures
        match validate_spec(schema@, accounts@, program_id@) {
            Ok((s, n)) => r matches Ok(v) && v.slots@ == s && v.remaining == n,
            Err(e) => r matches Err(x) && x@ == e,
        },
{
    let resolved = resolve(schema, accounts, program_id)?;
    proof {
        lemma_resolved_fits(schema@, accounts@, program_id@);
    }
    check_duplicates(schema, accounts, &resolved.slots)?;
    check_relations(schema, accounts, &resolved.slots)?;
    Ok(resolved)
}

} // verus!

verus! {

/// Two writable slots holding the same account key, neither opting out,
/// make every pass that gets past resolution fail with
/// `DuplicateMutableAccount`.
pub proof fn lemma_duplicate_writable_fails(
    slots: Seq<SlotDeclaration>,
    accs: Seq<AccountInfo>,
    program_id: Seq<u8>,
    i: int,
    j: int,
)
    requires
        resolve_spec(slots, accs, program_id) is Ok,
        dup_conflict(slots, accs, resolve_spec(slots, accs, program_id)->Ok_0.0, i, j),
    ensures
        validate_spec(slots, accs, program_id) is Err,
        validate_spec(slots, accs, program_id)->Err_0.code == ErrorCode::DuplicateMutableAccount,
{
    let res = resolve_spec(slots, accs, program_id)->Ok_0.0;
    assert(dup_pred(slots, accs, res)(i, j));
}

/// Where every two writable slots that hold the same account key include
/// one that opts out with `dup`, the duplicate check never fails: the pass
/// ends as resolution and the relationship checks decide.
pub proof fn lemma_duplicate_opt_out(slots: Seq<SlotDeclaration>, accs: Seq<AccountInfo>, program_id: Seq<u8>)
    requires
        resolve_spec(slots, accs, program_id) is Ok,
        forall|i: int, j: int|
            #![trigger slots[i].dup, slots[j].dup]
            0 <= i < j < slots.len() && declared_writable(slots[i]) && declared_writable(slots[j])
                && resolve_spec(slots, accs, program_id)->Ok_0.0[i].account is Some
                && resolve_spec(slots, accs, program_id)->Ok_0.0[j].account is Some && accs[resolve_spec(
                slots,
                accs,
                program_id,
            )->Ok_0.0[i].account->0 as int].key@ == accs[resolve_spec(
                slots,
                accs,
                program_id,
            )->Ok_0.0[j].account->0 as int].key@ ==> slots[i].dup || slots[j].dup,
    ensures
        ({
            let (res, n) = resolve_spec(slots, accs, program_id)->Ok_0;
            &&& duplicate_spec(slots, accs, res) is None
            &&& validate_spec(slots, accs, program_id) == match relations_spec(slots, accs, res) {
                Some(e) => Err(e),
                None => Ok((res, n)),
            }
        }),
{
    let res = resolve_spec(slots, accs, program_id)->Ok_0.0;
    let p = dup_pred(slots, accs, res);
    assert forall|a: int, b: int| !#[trigger] p(a, b) by {
        if dup_conflict(slots, accs, res, a, b) {
            assert(slots[a].dup || slots[b].dup);
        }
    }
}

/// In a schema whose only relationship is rule `k` of slot `i`, a pass that
/// gets past resolution and the duplicate check succeeds exactly when the
/// key held in slot `i`'s data equals the target slot's key, and otherwise
/// fails with `ConstraintHasOne` attributed to slot `i`.
pub proof fn lemma_relation_decides(
    slots: Seq<SlotDeclaration>,
    accs: Seq<AccountInfo>,
    program_id: Seq<u8>,
    i: int,
    k: int,
)
    requires
        schema_wf(slots),
        resolve_spec(slots, accs, program_id) is Ok,
        duplicate_spec(slots, accs, resolve_spec(slots, accs, program_id)->Ok_0.0) is None,
        0 <= i < slots.len(),
        0 <= k < slots[i].wrappers@.len(),
        slots[i].wrappers@[k] is RelatesTo,
        forall|a: int, b: int|
            0 <= a < slots.len() && 0 <= b < slots[a].wrappers@.len() && (a != i || b != k)
                ==> !(#[trigger] slots[a].wrappers@[b] is RelatesTo),
        resolve_spec(slots, accs, program_id)->Ok_0.0[i].account is Some,
        resolve_spec(slots, accs, program_id)->Ok_0.0[slot_index(
            slots,
            slots[i].wrappers@[k]->target@,
        )].account is Some,
        slots[i].wrappers@[k]->offset + PUBKEY_BYTES <= accs[resolve_spec(
            slots,
            accs,
            program_id,
        )->Ok_0.0[i].account->0 as int].data@.len(),
    ensures
        ({
            let res = resolve_spec(slots, accs, program_id)->Ok_0.0;
            let offset = slots[i].wrappers@[k]->offset;
            let t = slot_index(slots, slots[i].wrappers@[k]->target@);
            let field = accs[res[i].account->0 as int].data@.subrange(
                offset as int,
                offset + PUBKEY_BYTES,
            );
            &&& validate_spec(slots, accs, program_id) is Ok <==> field == accs[res[t].account->0 as int].key@
            &&& validate_spec(slots, accs, program_id) is Err ==> validate_spec(
                slots,
                accs,
                program_id,
            )->Err_0 == named(fault(ErrorCode::ConstraintHasOne), slots[i].name)
        }),
{
    let res = resolve_spec(slots, accs, program_id)->Ok_0.0;
    lemma_resolved_fits(slots, accs, program_id);
    let p = relation_pred(slots, accs, res);
    assert forall|a: int, b: int| (a != i || b != k) implies !#[trigger] p(a, b) by {
        if 0 <= a < slots.len() && 0 <= b < slots[a].wrappers@.len() {
            assert(!(slots[a].wrappers@[b] is RelatesTo));
        }
    }
    if p(i, k) {
        assert(first_pair(p, i, k));
        let (x, y) = choose|x: int, y: int| first_pair(p, x, y);
        lemma_first_pair_unique(p, i, k, x, y);
    }
}

/// A chain of rules passes exactly when each of its rules passes alone.
pub proof fn lemma_chain_passes_iff_each(ws: Seq<Wrapper>, acc: AccountInfo, program_id: Seq<u8>)
    ensures
        chain_check(ws, acc, program_id) is Ok <==> forall|k: int|
            0 <= k < ws.len() ==> #[trigger] wrapper_check(ws[k], acc, program_id) is Ok,
    decreases ws.len(),
{
    if ws.len() > 0 {
        let init = ws.drop_last();
        lemma_chain_passes_iff_each(init, acc, program_id);
        if chain_check(ws, acc, program_id) is Ok {
            assert forall|k: int| 0 <= k < ws.len() implies #[trigger] wrapper_check(
                ws[k],
                acc,
                program_id,
            ) is Ok by {
                if k < ws.len() - 1 {
                    assert(ws[k] == init[k]);
                }
            }
        }
        if forall|k: int| 0 <= k < ws.len() ==> #[trigger] wrapper_check(ws[k], acc, program_id) is Ok {
            assert forall|k: int| 0 <= k < init.len() implies #[trigger] wrapper_check(
                init[k],
                acc,
                program_id,
            ) is Ok by {
                assert(ws[k] == init[k]);
            }
            assert(wrapper_check(ws[ws.len() - 1], acc, program_id) is Ok);
        }
    }
}

/// The order of rules in a chain does not change whether it passes: two
/// chains made of the same rules both pass or both fail; only which failure
/// is reported first can differ.
pub proof fn lemma_wrapper_order_irrelevant(
    ws1: Seq<Wrapper>,
    ws2: Seq<Wrapper>,
    acc: AccountInfo,
    program_id: Seq<u8>,
)
    requires
        forall|w: Wrapper| ws1.contains(w) <==> ws2.contains(w),
    ensures
        (chain_check(ws1, acc, program_id) is Ok) == (chain_check(ws2, acc, program_id) is Ok),
{
    lemma_chain_passes_iff_each(ws1, acc, program_id);
    lemma_chain_passes_iff_each(ws2, acc, program_id);
    if chain_check(ws1, acc, program_id) is Ok {
        assert forall|k: int| 0 <= k < ws2.len() implies #[trigger] wrapper_check(
            ws2[k],
            acc,
            program_id,
        ) is Ok by {
            assert(ws2.contains(ws2[k]));
            let m = choose|m: int| 0 <= m < ws1.len() && ws1[m] == ws2[k];
            assert(wrapper_check(ws1[m], acc, program_id) is Ok);
        }
    }
    if chain_check(ws2, acc, program_id) is Ok {
        assert forall|k: int| 0 <= k < ws1.len() implies #[trigger] wrapper_check(
            ws1[k],
            acc,
            program_id,
        ) is Ok by {
            assert(ws1.contains(ws1[k]));
            let m = choose|m: int| 0 <= m < ws2.len() && ws2[m] == ws1[k];
            assert(wrapper_check(ws2[m], acc, program_id) is Ok);
        }
    }
}

/// Two declarations that differ only in the order of their rules pass or
/// fail together on every account.
pub proof fn lemma_slot_order_irrelevant(
    d1: SlotDeclaration,
    d2: SlotDeclaration,
    acc: AccountInfo,
    program_id: Seq<u8>,
)
    requires
        d1.init == d2.init,
        d1.signer == d2.signer,
        d1.discriminator == d2.discriminator,
        forall|w: Wrapper| d1.wrappers@.contains(w) <==> d2.wrappers@.contains(w),
    ensures
        (slot_check(d1, acc, program_id) is Ok) == (slot_check(d2, acc, program_id) is Ok),
{
    lemma_wrapper_order_irrelevant(d1.wrappers@, d2.wrappers@, acc, program_id);
}

/// The two declarations differ at most in the order of their rules.
pub open spec fn same_but_order(d1: SlotDeclaration, d2: SlotDeclaration) -> bool {
    &&& d1.name == d2.name
    &&& d1.optional == d2.optional
    &&& d1.signer == d2.signer
    &&& d1.dup == d2.dup
    &&& d1.init == d2.init
    &&& d1.discriminator == d2.discriminator
    &&& forall|w: Wrapper| d1.wrappers@.contains(w) <==> d2.wrappers@.contains(w)
}

/// The two schemas differ at most in the order of each slot's rules.
pub open spec fn reordered(s1: Seq<SlotDeclaration>, s2: Seq<SlotDeclaration>) -> bool {
    &&& s1.len() == s2.len()
    &&& forall|i: int| 0 <= i < s1.len() ==> same_but_order(#[trigger] s1[i], s2[i])
}

/// The two resolutions put the same accounts in the same slots.
pub open spec fn same_accounts(r1: Seq<ResolvedSlot>, r2: Seq<ResolvedSlot>) -> bool {
    &&& r1.len() == r2.len()
    &&& forall|k: int| 0 <= k < r1.len() ==> (#[trigger] r1[k]).account == r2[k].account
}

proof fn lemma_resolve_reordered(
    s1: Seq<SlotDeclaration>,
    s2: Seq<SlotDeclaration>,
    accs: Seq<AccountInfo>,
    program_id: Seq<u8>,
    i: nat,
    pos: nat,
    o1: Seq<ResolvedSlot>,
    o2: Seq<ResolvedSlot>,
)
    requires
        reordered(s1, s2),
        same_accounts(o1, o2),
    ensures
        (resolve_from(s1, accs, program_id, i, pos, o1) is Ok) == (resolve_from(
            s2,
            accs,
            program_id,
            i,
            pos,
            o2,
        ) is Ok),
        resolve_from(s1, accs, program_id, i, pos, o1) is Ok ==> {
            let r1 = resolve_from(s1, accs, program_id, i, pos, o1)->Ok_0;
            let r2 = resolve_from(s2, accs, program_id, i, pos, o2)->Ok_0;
            same_accounts(r1.0, r2.0) && r1.1 == r2.1
        },
    decreases s1.len() - i,
{
    if i < s1.len() {
        let d1 = s1[i as int];
        let d2 = s2[i as int];
        assert(same_but_order(d1, d2));
        let a1 = o1.push(absent());
        let a2 = o2.push(absent());
        assert(same_accounts(a1, a2)) by {
            assert forall|k: int| 0 <= k < a1.len() implies (#[trigger] a1[k]).account == a2[k].account by {
                if k < o1.len() {
                    assert(a1[k] == o1[k] && a2[k] == o2[k]);
                }
            }
        }
        if pos >= accs.len() {
            if d1.optional {
                lemma_resolve_reordered(s1, s2, accs, program_id, i + 1, pos, a1, a2);
            }
        } else if d1.optional && accs[pos as int].key@ == program_id {
            lemma_resolve_reordered(s1, s2, accs, program_id, i + 1, pos + 1, a1, a2);
        } else {
            lemma_slot_order_irrelevant(d1, d2, accs[pos as int], program_id);
            match (slot_check(d1, accs[pos as int], program_id), slot_check(d2, accs[pos as int], program_id)) {
                (Ok(b1), Ok(b2)) => {
                    let p1 = o1.push(ResolvedSlot { account: Some(pos as usize), bump: b1 });
                    let p2 = o2.push(ResolvedSlot { account: Some(pos as usize), bump: b2 });
                    assert(same_accounts(p1, p2)) by {
                        assert forall|k: int| 0 <= k < p1.len() implies (#[trigger] p1[k]).account
                            == p2[k].account by {
                            if k < o1.len() {
                                assert(p1[k] == o1[k] && p2[k] == o2[k]);
                            }
                        }
                    }
                    lemma_resolve_reordered(s1, s2, accs, program_id, i + 1, pos + 1, p1, p2);
                },
                _ => {},
            }
        }
    }
}

proof fn lemma_writable_reordered(d1: SlotDeclaration, d2: SlotDeclaration)
    requires
        same_but_order(d1, d2),
    ensures
        declared_writable(d1) == declared_writable(d2),
{
    if declared_writable(d1) {
        let k = choose|k: int| 0 <= k < d1.wrappers@.len() && #[trigger] d1.wrappers@[k] is Mutable;
        assert(d1.wrappers@[k] == Wrapper::Mutable);
        assert(d1.wrappers@.contains(Wrapper::Mutable));
        let m = choose|m: int| 0 <= m < d2.wrappers@.len() && d2.wrappers@[m] == Wrapper::Mutable;
        assert(d2.wrappers@[m] is Mutable);
    }
    if declared_writable(d2) {
        let k = choose|k: int| 0 <= k < d2.wrappers@.len() && #[trigger] d2.wrappers@[k] is Mutable;
        assert(d2.wrappers@[k] == Wrapper::Mutable);
        assert(d2.wrappers@.contains(Wrapper::Mutable));
        let m = choose|m: int| 0 <= m < d1.wrappers@.len() && d1.wrappers@[m] == Wrapper::Mutable;
        assert(d1.wrappers@[m] is Mutable);
    }
}

proof fn lemma_relation_reordered(
    s1: Seq<SlotDeclaration>,
    s2: Seq<SlotDeclaration>,
    accs: Seq<AccountInfo>,
    r1: Seq<ResolvedSlot>,
    r2: Seq<ResolvedSlot>,
    i: int,
    k1: int,
    k2: int,
)
    requires
        reordered(s1, s2),
        schema_wf(s1),
        schema_wf(s2),
        same_accounts(r1, r2),
        r1.len() == s1.len(),
        0 <= i < s1.len(),
        0 <= k1 < s1[i].wrappers@.len(),
        0 <= k2 < s2[i].wrappers@.len(),
        s1[i].wrappers@[k1] == s2[i].wrappers@[k2],
    ensures
        relation_fault(s1, accs, r1, i, k1) == relation_fault(s2, accs, r2, i, k2),
{
    assert(same_but_order(s1[i], s2[i]));
    assert(r1[i].account == r2[i].account);
    match s1[i].wrappers@[k1] {
        Wrapper::RelatesTo { target, offset } => {
            assert(has_slot(s1, target@));
            let t = choose|t: int| 0 <= t < s1.len() && #[trigger] s1[t].name@ == target@;
            assert(same_but_order(s1[t], s2[t]));
            lemma_slot_index(s1, target@, t);
            lemma_slot_index(s2, target@, t);
            assert(r1[t].account == r2[t].account);
        },
        _ => {},
    }
}

/// The order of the rules within each slot does not change whether a whole
/// pass succeeds: two schemas that differ only in that order both accept or
/// both reject every account list.
pub proof fn lemma_schema_order_irrelevant(
    s1: Seq<SlotDeclaration>,
    s2: Seq<SlotDeclaration>,
    accs: Seq<AccountInfo>,
    program_id: Seq<u8>,
)
    requires
        schema_wf(s1),
        schema_wf(s2),
        reordered(s1, s2),
    ensures
        (validate_spec(s1, accs, program_id) is Ok) == (validate_spec(s2, accs, program_id) is Ok),
{
    lemma_resolve_reordered(s1, s2, accs, program_id, 0, 0, Seq::empty(), Seq::empty());
    if resolve_spec(s1, accs, program_id) is Ok {
        let r1 = resolve_spec(s1, accs, program_id)->Ok_0.0;
        let r2 = resolve_spec(s2, accs, program_id)->Ok_0.0;
        lemma_resolved_fits(s1, accs, program_id);
        lemma_resolved_fits(s2, accs, program_id);
        let d1 = dup_pred(s1, accs, r1);
        let d2 = dup_pred(s2, accs, r2);
        assert forall|a: int, b: int| #[trigger] d1(a, b) == d2(a, b) by {
            if 0 <= a < b < s1.len() {
                assert(same_but_order(s1[a], s2[a]));
                assert(same_but_order(s1[b], s2[b]));
                lemma_writable_reordered(s1[a], s2[a]);
                lemma_writable_reordered(s1[b], s2[b]);
                assert(r1[a].account == r2[a].account);
                assert(r1[b].account == r2[b].account);
            }
        }
        if exists|a: int, b: int| #[trigger] d1(a, b) {
            let (a, b) = choose|a: int, b: int| #[trigger] d1(a, b);
            assert(d2(a, b));
        }
        if exists|a: int, b: int| #[trigger] d2(a, b) {
            let (a, b) = choose|a: int, b: int| #[trigger] d2(a, b);
            assert(d1(a, b));
        }
        let p1 = relation_pred(s1, accs, r1);
        let p2 = relation_pred(s2, accs, r2);
        if exists|a: int, b: int| #[trigger] p1(a, b) {
            let (a, b) = choose|a: int, b: int| #[trigger] p1(a, b);
            assert(0 <= a < s1.len() && 0 <= b < s1[a].wrappers@.len());
            assert(same_but_order(s1[a], s2[a]));
            let w = s1[a].wrappers@[b];
            assert(s1[a].wrappers@.contains(w));
            let c = choose|c: int| 0 <= c < s2[a].wrappers@.len() && s2[a].wrappers@[c] == w;
            lemma_relation_reordered(s1, s2, accs, r1, r2, a, b, c);
            assert(p2(a, c));
            lemma_first_pair_exists(p1, a, b);
            lemma_first_pair_exists(p2, a, c);
        }
        if exists|a: int, b: int| #[trigger] p2(a, b) {
            let (a, b) = choose|a: int, b: int| #[trigger] p2(a, b);
            assert(0 <= a < s2.len() && 0 <= b < s2[a].wrappers@.len());
            assert(same_but_order(s1[a], s2[a]));
            let w = s2[a].wrappers@[b];
            assert(s2[a].wrappers@.contains(w));
            let c = choose|c: int| 0 <= c < s1[a].wrappers@.len() && s1[a].wrappers@[c] == w;
            lemma_relation_reordered(s1, s2, accs, r1, r2, a, c, b);
            assert(p1(a, c));
            lemma_first_pair_exists(p1, a, c);
            lemma_first_pair_exists(p2, a, b);
        }
    }
}

} // verus!
