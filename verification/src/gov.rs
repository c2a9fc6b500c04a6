//! The governance relay's message shapes, and the verified translation of a
//! cross-chain tally result into weighted vote options. The relay itself —
//! channels, packets, acknowledgements — is plumbing around these values;
//! the one piece of logic is which options a tally yields.

use vstd::prelude::*;
use crate::dec::Dec;

verus! {

/// One weighted vote option: a numeric option code and a decimal weight
/// rendered as text.
#[derive(Clone, PartialEq, Eq, Debug)]
pub struct WeightedVoteOption {
    pub option: i32,
    pub weight: String,
}

/// View of [`WeightedVoteOption`] over mathematical strings.
pub struct WeightedVoteOptionV {
    pub option: i32,
    pub weight: Seq<char>,
}

impl View for WeightedVoteOption {
    type V = WeightedVoteOptionV;

    open spec fn view(&self) -> WeightedVoteOptionV {
        WeightedVoteOptionV { option: self.option, weight: self.weight@ }
    }
}

/// The valid vote options of a governance proposal.
#[derive(Clone, Copy, PartialEq, Eq, Structural, Debug)]
pub enum VoteOption {
    Unspecified,
    Yes,
    Abstain,
    No,
    NoWithVeto,
}

/// The numeric code of a vote option on the wire.
pub fn vote_option_code(o: VoteOption) -> (r: i32)
    ensures
        r == spec_vote_option_code(o),
{
    match o {
        VoteOption::Unspecified => 0,
        VoteOption::Yes => 1,
        VoteOption::Abstain => 2,
        VoteOption::No => 3,
        VoteOption::NoWithVeto => 4,
    }
}

/// The numeric code of a vote option.
pub open spec fn spec_vote_option_code(o: VoteOption) -> i32 {
    match o {
        VoteOption::Unspecified => 0,
        VoteOption::Yes => 1,
        VoteOption::Abstain => 2,
        VoteOption::No => 3,
        VoteOption::NoWithVeto => 4,
    }
}

/// The weighted-vote message cast toward the staking chain's governance.
#[derive(Clone, PartialEq, Eq, Debug)]
pub struct MsgVoteWeighted {
    pub proposal_id: u64,
    pub voter: String,
    pub options: Vec<WeightedVoteOption>,
}

/// A vote forwarded from the relay to the hub.
#[derive(Clone, PartialEq, Eq, Debug)]
pub struct VoteMsg {
    pub proposal: u64,
    pub options: Vec<WeightedVoteOption>,
}

/// Build the vote the hub casts on behalf of its stakers.
pub fn build_vote(msg: VoteMsg, voter: &String) -> (r: MsgVoteWeighted)
    ensures
        r.proposal_id == msg.proposal,
        r.voter@ == voter@,
        r.options@ == msg.options@,
{
    MsgVoteWeighted { proposal_id: msg.proposal, voter: voter.clone(), options: msg.options }
}

/// A tally carried in a governance packet: one decimal count per option,
/// rendered as text.
#[derive(Clone, PartialEq, Eq, Debug)]
pub struct TallyResult {
    pub yes_count: String,
    pub abstain_count: String,
    pub no_count: String,
    pub no_with_veto_count: String,
}

/// What the external decimal parser returns for a string, as a raw
/// fixed-point value; the result depends on the characters alone.
pub uninterp spec fn parsed_decimal_raw(s: Seq<char>) -> Option<u128>;

/// Relies on `cosmwasm_std::Decimal`'s `FromStr`: parsing depends on the
/// characters alone.
#[verifier::external_body]
fn parse_decimal(s: &String) -> (r: Option<Dec>)
    ensures
        (match parsed_decimal_raw(s@) {
            Some(raw) => r == Some(Dec { raw }),
            None => r is None,
        }),
{
    match s.as_str().parse::<cosmwasm_std::Decimal>() {
        Ok(d) => Some(Dec { raw: d.atomics().u128() }),
        Err(_) => None,
    }
}

/// The option entry a single count contributes: present exactly when the
/// count parses to a nonzero decimal.
pub open spec fn spec_tally_entry(count: Seq<char>, code: i32) -> Seq<WeightedVoteOptionV> {
    match parsed_decimal_raw(count) {
        Some(raw) => if raw != 0 {
            seq![WeightedVoteOptionV { option: code, weight: count }]
        } else {
            Seq::empty()
        },
        None => Seq::empty(),
    }
}

impl TallyResult {
    /// The weighted options a tally yields: each option whose count parses
    /// to a nonzero decimal, weighted by the count's own text, in the fixed
    /// option order.
    pub fn to_weighted_options(self) -> (r: Vec<WeightedVoteOption>)
        ensures
            r@.map_values(|o: WeightedVoteOption| o@) == spec_tally_entry(
                self.yes_count@,
                spec_vote_option_code(VoteOption::Yes),
            ) + spec_tally_entry(self.abstain_count@, spec_vote_option_code(VoteOption::Abstain))
                + spec_tally_entry(self.no_count@, spec_vote_option_code(VoteOption::No))
                + spec_tally_entry(
                self.no_with_veto_count@,
                spec_vote_option_code(VoteOption::NoWithVeto),
            ),
    {
        let mut out: Vec<WeightedVoteOption> = Vec::new();
        push_tally_entry(&mut out, &self.yes_count, vote_option_code(VoteOption::Yes));
        push_tally_entry(&mut out, &self.abstain_count, vote_option_code(VoteOption::Abstain));
        push_tally_entry(&mut out, &self.no_count, vote_option_code(VoteOption::No));
        push_tally_entry(
            &mut out,
            &self.no_with_veto_count,
            vote_option_code(VoteOption::NoWithVeto),
        );
        proof {
            assert(out@.map_values(|o: WeightedVoteOption| o@) =~= spec_tally_entry(
                self.yes_count@,
                1,
            ) + spec_tally_entry(self.abstain_count@, 2) + spec_tally_entry(self.no_count@, 3)
                + spec_tally_entry(self.no_with_veto_count@, 4));
        }
        out
    }
}

/// Append the entry one count contributes.
fn push_tally_entry(out: &mut Vec<WeightedVoteOption>, count: &String, code: i32)
    ensures
        final(out)@.map_values(|o: WeightedVoteOption| o@) == old(out)@.map_values(
            |o: WeightedVoteOption| o@,
        ) + spec_tally_entry(count@, code),
{
    let ghost before = out@.map_values(|o: WeightedVoteOption| o@);
    match parse_decimal(count) {
        Some(d) => {
            if !d.is_zero() {
                out.push(WeightedVoteOption { option: code, weight: count.clone() });
                proof {
                    assert(out@.map_values(|o: WeightedVoteOption| o@) =~= before.push(
                        WeightedVoteOptionV { option: code, weight: count@ },
                    ));
                    assert(out@.map_values(|o: WeightedVoteOption| o@) =~= before
                        + spec_tally_entry(count@, code));
                }
            } else {
                proof {
                    assert(before + spec_tally_entry(count@, code) =~= before);
                }
            }
        },
        None => {
            proof {
                assert(before + spec_tally_entry(count@, code) =~= before);
            }
        },
    }
}


/// The channel version the relay speaks.
pub const RELAY_VERSION: &'static str = "pgov-1";

/// The relay's own failure conditions.
#[derive(Clone, Copy, PartialEq, Eq, Structural, Debug)]
pub enum RelayError {
    /// The channel speaks another version than the relay.
    InvalidIbcVersion,
    /// Only unordered channels are supported.
    OnlyUnorderedChannel,
}

/// Enforce the relay's channel constraints: both ends must speak the
/// relay's version, and the channel must be unordered.
pub fn enforce_order_and_version(
    version: &String,
    counterparty_version: &Option<String>,
    unordered: bool,
) -> (r: Result<(), RelayError>)
    ensures
        version@ != RELAY_VERSION@ ==> r == Result::<(), RelayError>::Err(
            RelayError::InvalidIbcVersion,
        ),
        (version@ == RELAY_VERSION@ && (counterparty_version matches Some(v) && v@
            != RELAY_VERSION@)) ==> r == Result::<(), RelayError>::Err(
            RelayError::InvalidIbcVersion,
        ),
        (version@ == RELAY_VERSION@ && !(counterparty_version matches Some(v) && v@
            != RELAY_VERSION@) && !unordered) ==> r == Result::<(), RelayError>::Err(
            RelayError::OnlyUnorderedChannel,
        ),
        (version@ == RELAY_VERSION@ && !(counterparty_version matches Some(v) && v@
            != RELAY_VERSION@) && unordered) ==> r is Ok,
{
    let expected = RELAY_VERSION.to_owned();
    if !(*version == expected) {
        return Err(RelayError::InvalidIbcVersion);
    }
    match counterparty_version {
        Some(v) => {
            if !(*v == expected) {
                return Err(RelayError::InvalidIbcVersion);
            }
        },
        None => {},
    }
    if !unordered {
        return Err(RelayError::OnlyUnorderedChannel);
    }
    Ok(())
}

/// What the relay is instantiated with.
#[derive(Clone, PartialEq, Eq, Debug)]
pub struct InitMsg {
    pub hub_contract: String,
    pub gas_limit: Option<u64>,
}

/// The queries the relay answers.
pub enum QueryMsg {
    Port,
    ListChannels,
    Channel { id: String },
    Config,
    Admin,
}

/// The port bound by the relay.
#[derive(Clone, PartialEq, Eq, Debug)]
pub struct PortResponse {
    pub port_id: String,
}

/// The relay's wiring visible to queries.
#[derive(Clone, PartialEq, Eq, Debug)]
pub struct ConfigResponse {
    pub hub_contract: String,
    pub gas_limit: Option<u64>,
}

/// The reply-handler arguments the relay records.
#[derive(Clone, PartialEq, Eq, Debug)]
pub struct ReplyArgs {
    pub channel: String,
}

} // verus!
