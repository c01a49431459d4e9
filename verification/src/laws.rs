//! The engine's global guarantees, stated once over the withdrawal and
//! deposit specifications and proved for every input.

use vstd::prelude::*;

use crate::asset::{CW1155WrapperV, CW20WrapperV, CW721WrapperV};
use crate::contract::{batch_groups, batch_msg_of, cw1155_withdraw_msgs, cw20_withdraw_msgs,
    cw721_withdraw_msgs, group_has, group_idx, spec_receive_cw20, spec_withdraw, withdraw_msgs};
use crate::error::ContractError;
use crate::msg::{Cw20ReceiveMsg, Env, MessageInfo};
use crate::payload::spec_parse_payload;
use crate::response::{Response, TransferInstructionV};
use crate::state::ContractStorage;

verus! {

broadcast use vstd::multiset::group_multiset_axioms, vstd::seq_lib::group_to_multiset_ensures;

// ---------------------------------------------------------------------
// What an instruction or a record owes, per asset class
// ---------------------------------------------------------------------

/// The (source contract, amount) a fungible transfer instruction hands
/// back.
pub open spec fn cw20_payload(m: TransferInstructionV) -> (Seq<char>, u128) {
    match m {
        TransferInstructionV::Cw20Transfer { contract_addr, recipient, amount } => (
            contract_addr,
            amount,
        ),
        _ => arbitrary(),
    }
}

/// The (source contract, amount) a fungible record owes.
pub open spec fn cw20_owed(r: CW20WrapperV) -> (Seq<char>, u128) {
    (r.contract_address, r.amount)
}

/// The (source contract, token identity) a non-fungible transfer
/// instruction hands back.
pub open spec fn cw721_payload(m: TransferInstructionV) -> (Seq<char>, Seq<char>) {
    match m {
        TransferInstructionV::Cw721TransferNft { contract_addr, recipient, token_id } => (
            contract_addr,
            token_id,
        ),
        _ => arbitrary(),
    }
}

/// The (source contract, token identity) a non-fungible record owes.
pub open spec fn cw721_owed(r: CW721WrapperV) -> (Seq<char>, Seq<char>) {
    (r.contract_address, r.token_id)
}

/// The (source contract, token identity, amount) a semi-fungible record
/// owes.
pub open spec fn cw1155_owed(r: CW1155WrapperV) -> (Seq<char>, Seq<char>, u128) {
    (r.contract_address, r.token_id, r.amount)
}

/// The triples of one batch: each pair under the batch's contract.
pub open spec fn contract_pairs(c: Seq<char>, pairs: Seq<(Seq<char>, u128)>) -> Seq<
    (Seq<char>, Seq<char>, u128),
> {
    pairs.map_values(|p: (Seq<char>, u128)| (c, p.0, p.1))
}

/// The triples of a sequence of batch groups, flattened in order.
pub open spec fn batch_triples(gs: Seq<(Seq<char>, Seq<(Seq<char>, u128)>)>) -> Seq<
    (Seq<char>, Seq<char>, u128),
>
    decreases gs.len(),
{
    if gs.len() == 0 {
        Seq::empty()
    } else {
        batch_triples(gs.drop_last()) + contract_pairs(gs.last().0, gs.last().1)
    }
}

/// The triples a sequence of batched transfer instructions hands back.
pub open spec fn instr_batch_triples(msgs: Seq<TransferInstructionV>) -> Seq<
    (Seq<char>, Seq<char>, u128),
>
    decreases msgs.len(),
{
    if msgs.len() == 0 {
        Seq::empty()
    } else {
        instr_batch_triples(msgs.drop_last()) + (match msgs.last() {
            TransferInstructionV::Cw1155BatchSendFrom { contract_addr, from, to, batch } =>
                contract_pairs(contract_addr, batch),
            _ => Seq::empty(),
        })
    }
}

// ---------------------------------------------------------------------
// Conservation, per asset class
// ---------------------------------------------------------------------

/// Law: a drained non-fungible partition comes back whole. The
/// instructions of a withdrawal hand back, as a multiset, exactly the
/// (source contract, token identity) pairs deposited, every instruction
/// a transfer to the withdrawing owner.
pub proof fn lemma_withdraw_conserves_cw721(records: Seq<CW721WrapperV>, recipient: Seq<char>)
    ensures
        cw721_withdraw_msgs(records, recipient).map_values(
            |m: TransferInstructionV| cw721_payload(m),
        ).to_multiset() == records.map_values(|r: CW721WrapperV| cw721_owed(r)).to_multiset(),
        forall|j: int|
            0 <= j < cw721_withdraw_msgs(records, recipient).len()
                ==> (#[trigger] cw721_withdraw_msgs(records, recipient)[j] matches
                TransferInstructionV::Cw721TransferNft { recipient: to, .. } && to == recipient),
{
    let msgs = cw721_withdraw_msgs(records, recipient);
    let owed = records.map_values(|r: CW721WrapperV| cw721_owed(r));
    assert(msgs.map_values(|m: TransferInstructionV| cw721_payload(m)) =~= owed.reverse());
    owed.lemma_reverse_to_multiset();
}

/// Law: a drained fungible partition comes back whole, as
/// [`lemma_withdraw_conserves_cw721`] for amounts.
pub proof fn lemma_withdraw_conserves_cw20(records: Seq<CW20WrapperV>, recipient: Seq<char>)
    ensures
        cw20_withdraw_msgs(records, recipient).map_values(
            |m: TransferInstructionV| cw20_payload(m),
        ).to_multiset() == records.map_values(|r: CW20WrapperV| cw20_owed(r)).to_multiset(),
        forall|j: int|
            0 <= j < cw20_withdraw_msgs(records, recipient).len()
                ==> (#[trigger] cw20_withdraw_msgs(records, recipient)[j] matches
                TransferInstructionV::Cw20Transfer { recipient: to, .. } && to == recipient),
{
    let msgs = cw20_withdraw_msgs(records, recipient);
    let owed = records.map_values(|r: CW20WrapperV| cw20_owed(r));
    assert(msgs.map_values(|m: TransferInstructionV| cw20_payload(m)) =~= owed.reverse());
    owed.lemma_reverse_to_multiset();
}

/// Adding one pair to the group at `j` adds exactly its triple to the
/// flattened triples.
proof fn lemma_triples_update(
    gs: Seq<(Seq<char>, Seq<(Seq<char>, u128)>)>,
    j: int,
    pair: (Seq<char>, u128),
)
    requires
        0 <= j < gs.len(),
    ensures
        batch_triples(gs.update(j, (gs[j].0, gs[j].1.push(pair)))).to_multiset() == batch_triples(
            gs,
        ).to_multiset().insert((gs[j].0, pair.0, pair.1)),
    decreases gs.len(),
{
    let gs2 = gs.update(j, (gs[j].0, gs[j].1.push(pair)));
    let t = (gs[j].0, pair.0, pair.1);
    if j == gs.len() - 1 {
        assert(gs2.drop_last() =~= gs.drop_last());
        assert(gs2.last() == (gs[j].0, gs[j].1.push(pair)));
        assert(contract_pairs(gs[j].0, gs[j].1.push(pair)) =~= contract_pairs(
            gs[j].0,
            gs[j].1,
        ).push(t));
        vstd::seq_lib::lemma_multiset_commutative(
            batch_triples(gs.drop_last()),
            contract_pairs(gs[j].0, gs[j].1).push(t),
        );
        vstd::seq_lib::lemma_multiset_commutative(
            batch_triples(gs.drop_last()),
            contract_pairs(gs[j].0, gs[j].1),
        );
        assert(batch_triples(gs2).to_multiset() =~= batch_triples(gs).to_multiset().insert(t));
    } else {
        assert(gs2.drop_last() =~= gs.drop_last().update(j, (gs[j].0, gs[j].1.push(pair))));
        assert(gs.drop_last()[j] == gs[j]);
        lemma_triples_update(gs.drop_last(), j, pair);
        assert(gs2.last() == gs.last());
        vstd::seq_lib::lemma_multiset_commutative(
            batch_triples(gs2.drop_last()),
            contract_pairs(gs.last().0, gs.last().1),
        );
        vstd::seq_lib::lemma_multiset_commutative(
            batch_triples(gs.drop_last()),
            contract_pairs(gs.last().0, gs.last().1),
        );
        assert(batch_triples(gs2).to_multiset() =~= batch_triples(gs).to_multiset().insert(t));
    }
}

/// Grouping loses and invents nothing: the flattened triples of the
/// groups are, as a multiset, the records' triples.
proof fn lemma_batch_groups_conserve(rs: Seq<CW1155WrapperV>)
    ensures
        batch_triples(batch_groups(rs)).to_multiset() == rs.map_values(
            |r: CW1155WrapperV| cw1155_owed(r),
        ).to_multiset(),
    decreases rs.len(),
{
    let owed = rs.map_values(|r: CW1155WrapperV| cw1155_owed(r));
    if rs.len() == 0 {
        assert(batch_triples(batch_groups(rs)) =~= Seq::<(Seq<char>, Seq<char>, u128)>::empty());
        assert(owed =~= Seq::<(Seq<char>, Seq<char>, u128)>::empty());
    } else {
        lemma_batch_groups_conserve(rs.drop_last());
        let gs = batch_groups(rs.drop_last());
        let r = rs.last();
        let t = cw1155_owed(r);
        assert(owed =~= rs.drop_last().map_values(|x: CW1155WrapperV| cw1155_owed(x)).push(t));
        if group_has(gs, r.contract_address) {
            let j = group_idx(gs, r.contract_address);
            assert(0 <= j < gs.len() && gs[j].0 == r.contract_address);
            lemma_triples_update(gs, j, (r.token_id, r.amount));
            assert(batch_groups(rs) == gs.update(j, (gs[j].0, gs[j].1.push((r.token_id, r.amount)))));
        } else {
            let gs2 = batch_groups(rs);
            assert(gs2 == gs.push((r.contract_address, seq![(r.token_id, r.amount)])));
            assert(gs2.drop_last() =~= gs);
            assert(gs2.last() == (r.contract_address, seq![(r.token_id, r.amount)]));
            assert(contract_pairs(r.contract_address, seq![(r.token_id, r.amount)]) =~= Seq::<
                (Seq<char>, Seq<char>, u128),
            >::empty().push(t));
            vstd::seq_lib::lemma_multiset_commutative(
                batch_triples(gs),
                contract_pairs(r.contract_address, seq![(r.token_id, r.amount)]),
            );
            assert(batch_triples(gs2).to_multiset() =~= batch_triples(gs).to_multiset().insert(
                t,
            ));
        }
    }
}

/// The flattened triples of batch instructions are the flattened triples
/// of the groups they were built from.
proof fn lemma_instr_triples_of_groups(
    gs: Seq<(Seq<char>, Seq<(Seq<char>, u128)>)>,
    own: Seq<char>,
    recipient: Seq<char>,
)
    ensures
        instr_batch_triples(
            gs.map_values(
                |g: (Seq<char>, Seq<(Seq<char>, u128)>)| batch_msg_of(g, own, recipient),
            ),
        ) == batch_triples(gs),
    decreases gs.len(),
{
    let msgs = gs.map_values(
        |g: (Seq<char>, Seq<(Seq<char>, u128)>)| batch_msg_of(g, own, recipient),
    );
    if gs.len() == 0 {
        assert(instr_batch_triples(msgs) =~= batch_triples(gs));
    } else {
        lemma_instr_triples_of_groups(gs.drop_last(), own, recipient);
        assert(msgs.drop_last() =~= gs.drop_last().map_values(
            |g: (Seq<char>, Seq<(Seq<char>, u128)>)| batch_msg_of(g, own, recipient),
        ));
        assert(msgs.last() == batch_msg_of(gs.last(), own, recipient));
        assert(instr_batch_triples(msgs) =~= batch_triples(gs));
    }
}

/// Law: a drained semi-fungible partition comes back whole. The batched
/// instructions of a withdrawal hand back, as a multiset, exactly the
/// (source contract, token identity, amount) triples deposited, every
/// batch moved from this system to the withdrawing owner.
pub proof fn lemma_withdraw_conserves_cw1155(
    records: Seq<CW1155WrapperV>,
    own: Seq<char>,
    recipient: Seq<char>,
)
    ensures
        instr_batch_triples(cw1155_withdraw_msgs(records, own, recipient)).to_multiset()
            == records.map_values(|r: CW1155WrapperV| cw1155_owed(r)).to_multiset(),
        forall|j: int|
            0 <= j < cw1155_withdraw_msgs(records, own, recipient).len()
                ==> (#[trigger] cw1155_withdraw_msgs(records, own, recipient)[j] matches
                TransferInstructionV::Cw1155BatchSendFrom { from, to, .. } && from == own && to
                == recipient),
{
    lemma_instr_triples_of_groups(batch_groups(records.reverse()), own, recipient);
    lemma_batch_groups_conserve(records.reverse());
    let owed = records.map_values(|r: CW1155WrapperV| cw1155_owed(r));
    assert(records.reverse().map_values(|r: CW1155WrapperV| cw1155_owed(r)) =~= owed.reverse());
    owed.lemma_reverse_to_multiset();
}

/// Law: withdrawing an untouched bundle emits no instructions at all.
pub proof fn lemma_withdraw_untouched_is_empty(own: Seq<char>, recipient: Seq<char>)
    ensures
        withdraw_msgs(
            Seq::<CW721WrapperV>::empty(),
            Seq::<CW20WrapperV>::empty(),
            Seq::<CW1155WrapperV>::empty(),
            own,
            recipient,
        ) == Seq::<TransferInstructionV>::empty(),
{
    assert(cw721_withdraw_msgs(Seq::<CW721WrapperV>::empty(), recipient)
        =~= Seq::<TransferInstructionV>::empty());
    assert(cw20_withdraw_msgs(Seq::<CW20WrapperV>::empty(), recipient)
        =~= Seq::<TransferInstructionV>::empty());
    assert(Seq::<CW1155WrapperV>::empty().reverse() =~= Seq::<CW1155WrapperV>::empty());
    assert(cw1155_withdraw_msgs(Seq::<CW1155WrapperV>::empty(), own, recipient)
        =~= Seq::<TransferInstructionV>::empty());
    assert(withdraw_msgs(
        Seq::<CW721WrapperV>::empty(),
        Seq::<CW20WrapperV>::empty(),
        Seq::<CW1155WrapperV>::empty(),
        own,
        recipient,
    ) =~= Seq::<TransferInstructionV>::empty());
}

/// Law: after a successful withdrawal all three partitions of the bundle
/// are empty, and a following successful deposit under the same
/// identifier starts a fresh partition holding exactly the new record.
pub proof fn lemma_withdraw_then_deposit_starts_fresh(
    pre: ContractStorage,
    mid: ContractStorage,
    post: ContractStorage,
    env: Env,
    info: MessageInfo,
    bundle_id: String,
    dep_info: MessageInfo,
    dep_msg: Cw20ReceiveMsg,
    r1: Result<Response, ContractError>,
    r2: Result<Response, ContractError>,
)
    requires
        spec_withdraw(pre, mid, env, info, bundle_id, r1),
        r1 is Ok,
        spec_receive_cw20(mid, post, dep_info, dep_msg, r2),
        spec_parse_payload(dep_msg.msg@) == Some(bundle_id@),
        r2 is Ok,
    ensures
        mid.cw721_records(bundle_id@) == Seq::<CW721WrapperV>::empty(),
        mid.cw20_records(bundle_id@) == Seq::<CW20WrapperV>::empty(),
        mid.cw1155_records(bundle_id@) == Seq::<CW1155WrapperV>::empty(),
        post.cw20_records(bundle_id@) == seq![
            CW20WrapperV { contract_address: dep_info.sender@, amount: dep_msg.amount },
        ],
{
    let bid = bundle_id@;
    assert(post.ledger.cw20_bundle@ == mid.ledger.cw20_bundle@.insert(
        bid,
        mid.cw20_records(bid).push(
            CW20WrapperV { contract_address: dep_info.sender@, amount: dep_msg.amount },
        ),
    ));
    assert(post.cw20_records(bid) =~= seq![
        CW20WrapperV { contract_address: dep_info.sender@, amount: dep_msg.amount },
    ]);
}

// ---------------------------------------------------------------------
// Conservation over a whole deposit history
// ---------------------------------------------------------------------

/// One successful deposit into a fixed bundle, reduced to the record it
/// appends; a batch notification appends one event per pair.
pub enum DepositEvent {
    Fungible { contract: Seq<char>, amount: u128 },
    NonFungible { contract: Seq<char>, token_id: Seq<char> },
    SemiFungible { contract: Seq<char>, token_id: Seq<char>, amount: u128 },
}

/// The fungible partition after a history of deposits into an untouched
/// bundle.
pub open spec fn cw20_after(evs: Seq<DepositEvent>) -> Seq<CW20WrapperV>
    decreases evs.len(),
{
    if evs.len() == 0 {
        Seq::empty()
    } else {
        let rest = cw20_after(evs.drop_last());
        match evs.last() {
            DepositEvent::Fungible { contract, amount } => rest.push(
                CW20WrapperV { contract_address: contract, amount: amount },
            ),
            _ => rest,
        }
    }
}

/// The non-fungible partition after a history of deposits.
pub open spec fn cw721_after(evs: Seq<DepositEvent>) -> Seq<CW721WrapperV>
    decreases evs.len(),
{
    if evs.len() == 0 {
        Seq::empty()
    } else {
        let rest = cw721_after(evs.drop_last());
        match evs.last() {
            DepositEvent::NonFungible { contract, token_id } => rest.push(
                CW721WrapperV { contract_address: contract, token_id: token_id },
            ),
            _ => rest,
        }
    }
}

/// The semi-fungible partition after a history of deposits.
pub open spec fn cw1155_after(evs: Seq<DepositEvent>) -> Seq<CW1155WrapperV>
    decreases evs.len(),
{
    if evs.len() == 0 {
        Seq::empty()
    } else {
        let rest = cw1155_after(evs.drop_last());
        match evs.last() {
            DepositEvent::SemiFungible { contract, token_id, amount } => rest.push(
                CW1155WrapperV { contract_address: contract, token_id: token_id, amount: amount },
            ),
            _ => rest,
        }
    }
}

/// The (contract, amount) pairs of the fungible deposits of a history.
pub open spec fn fungible_deposited(evs: Seq<DepositEvent>) -> Seq<(Seq<char>, u128)>
    decreases evs.len(),
{
    if evs.len() == 0 {
        Seq::empty()
    } else {
        let rest = fungible_deposited(evs.drop_last());
        match evs.last() {
            DepositEvent::Fungible { contract, amount } => rest.push((contract, amount)),
            _ => rest,
        }
    }
}

/// The (contract, token identity) pairs of the non-fungible deposits.
pub open spec fn non_fungible_deposited(evs: Seq<DepositEvent>) -> Seq<(Seq<char>, Seq<char>)>
    decreases evs.len(),
{
    if evs.len() == 0 {
        Seq::empty()
    } else {
        let rest = non_fungible_deposited(evs.drop_last());
        match evs.last() {
            DepositEvent::NonFungible { contract, token_id } => rest.push((contract, token_id)),
            _ => rest,
        }
    }
}

/// The (contract, token identity, amount) triples of the semi-fungible
/// deposits.
pub open spec fn semi_fungible_deposited(evs: Seq<DepositEvent>) -> Seq<
    (Seq<char>, Seq<char>, u128),
>
    decreases evs.len(),
{
    if evs.len() == 0 {
        Seq::empty()
    } else {
        let rest = semi_fungible_deposited(evs.drop_last());
        match evs.last() {
            DepositEvent::SemiFungible { contract, token_id, amount } => rest.push(
                (contract, token_id, amount),
            ),
            _ => rest,
        }
    }
}

/// What each partition owes after a history is exactly what the history
/// deposited, in order.
proof fn lemma_after_owes_deposits(evs: Seq<DepositEvent>)
    ensures
        cw20_after(evs).map_values(|r: CW20WrapperV| cw20_owed(r)) == fungible_deposited(evs),
        cw721_after(evs).map_values(|r: CW721WrapperV| cw721_owed(r)) == non_fungible_deposited(
            evs,
        ),
        cw1155_after(evs).map_values(|r: CW1155WrapperV| cw1155_owed(r))
            == semi_fungible_deposited(evs),
    decreases evs.len(),
{
    if evs.len() == 0 {
        assert(cw20_after(evs).map_values(|r: CW20WrapperV| cw20_owed(r)) =~= fungible_deposited(
            evs,
        ));
        assert(cw721_after(evs).map_values(|r: CW721WrapperV| cw721_owed(r))
            =~= non_fungible_deposited(evs));
        assert(cw1155_after(evs).map_values(|r: CW1155WrapperV| cw1155_owed(r))
            =~= semi_fungible_deposited(evs));
    } else {
        lemma_after_owes_deposits(evs.drop_last());
        assert(cw20_after(evs).map_values(|r: CW20WrapperV| cw20_owed(r)) =~= fungible_deposited(
            evs,
        ));
        assert(cw721_after(evs).map_values(|r: CW721WrapperV| cw721_owed(r))
            =~= non_fungible_deposited(evs));
        assert(cw1155_after(evs).map_values(|r: CW1155WrapperV| cw1155_owed(r))
            =~= semi_fungible_deposited(evs));
    }
}

/// Law: over any history of successful deposits into an untouched bundle
/// followed by one withdrawal by the authorized owner, the outbound
/// instructions hand back, per asset class and as multisets over
/// (source contract, value), exactly what was deposited: no asset is
/// lost or duplicated.
pub proof fn lemma_history_conserves_assets(
    evs: Seq<DepositEvent>,
    own: Seq<char>,
    recipient: Seq<char>,
)
    ensures
        cw721_withdraw_msgs(cw721_after(evs), recipient).map_values(
            |m: TransferInstructionV| cw721_payload(m),
        ).to_multiset() == non_fungible_deposited(evs).to_multiset(),
        cw20_withdraw_msgs(cw20_after(evs), recipient).map_values(
            |m: TransferInstructionV| cw20_payload(m),
        ).to_multiset() == fungible_deposited(evs).to_multiset(),
        instr_batch_triples(cw1155_withdraw_msgs(cw1155_after(evs), own, recipient)).to_multiset()
            == semi_fungible_deposited(evs).to_multiset(),
{
    lemma_after_owes_deposits(evs);
    lemma_withdraw_conserves_cw721(cw721_after(evs), recipient);
    lemma_withdraw_conserves_cw20(cw20_after(evs), recipient);
    lemma_withdraw_conserves_cw1155(cw1155_after(evs), own, recipient);
}

} // verus!
