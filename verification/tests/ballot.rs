use ballot::contract::Contract;
use ballot::types::{Proposal, VoteError, Voter};

fn names() -> Vec<String> {
    vec!["Eduction".to_string(), "Industry".to_string(), "Finance".to_string()]
}

fn fresh_voter() -> Voter {
    Voter { weight: 1, voted: false, delegate: None, vote: None }
}

#[test]
fn init_contract() {
    let msg_sender = "bob.near".to_string();
    let proposal_names = names();
    let contract = Contract::new(msg_sender.clone(), &proposal_names);

    assert_eq!(contract.chair_person, msg_sender);
    assert_eq!(contract.get_voter(&msg_sender), Some(&fresh_voter()));
    for (index, proposal) in contract.proposals.iter().enumerate() {
        assert_eq!(
            *proposal,
            Proposal { name: proposal_names[index].to_string(), vote_count: 0 }
        )
    }
}

#[test]
fn give_right_to_vote() {
    let msg_sender = "bob.near".to_string();
    let voter_id = "alice.near".to_string();
    let mut contract = Contract::new(msg_sender.clone(), &names());

    assert_eq!(contract.give_right_to_vote(&msg_sender, &voter_id), Ok(()));
    assert_eq!(contract.get_voter(&voter_id), Some(&fresh_voter()));
}

#[test]
fn delegate() {
    let msg_sender = "bob.near".to_string();
    let delegate_id = "alice.near".to_string();
    let mut contract = Contract::new(msg_sender.clone(), &names());

    assert_eq!(contract.give_right_to_vote(&msg_sender, &delegate_id), Ok(()));
    assert_eq!(contract.delegate(&msg_sender, &delegate_id), Ok(()));

    assert_eq!(
        contract.get_voter(&msg_sender).unwrap().delegate,
        Some(delegate_id)
    );
}

#[test]
fn vote() {
    let msg_sender = "bob.near".to_string();
    let mut contract = Contract::new(msg_sender.clone(), &names());

    let vote_index: u64 = 2;
    let pre_vote_count = contract.proposals[vote_index as usize].vote_count;
    assert_eq!(contract.vote(&msg_sender, vote_index), Ok(()));

    assert_eq!(contract.get_voter(&msg_sender).unwrap().voted, true);
    assert_eq!(contract.get_voter(&msg_sender).unwrap().vote, Some(vote_index));
    assert_eq!(
        contract.proposals[vote_index as usize].vote_count - pre_vote_count,
        contract.get_voter(&msg_sender).unwrap().weight
    )
}

#[test]
fn winner_name() {
    let msg_sender = "bob.near".to_string();
    let mut contract = Contract::new(msg_sender.clone(), &names());

    let vote_index: u64 = 2;
    assert_eq!(contract.vote(&msg_sender, vote_index), Ok(()));

    assert_eq!(contract.winner_name(), Some("Finance".to_string()))
}

#[test]
fn construct_once_then_refuse() {
    let chair = "bob.near".to_string();
    let r = Contract::construct(false, chair.clone(), &names());
    assert!(r.is_ok());
    let c = r.unwrap();
    assert_eq!(c.chair_person, chair);
    assert_eq!(c.proposals.len(), 3);

    let again = Contract::construct(true, chair, &names());
    assert_eq!(again.err(), Some(VoteError::AlreadyInitialized));
}

#[test]
fn default_state_is_empty() {
    let c = Contract::default();
    assert_eq!(c.chair_person, "test.near".to_string());
    assert!(c.voters.is_empty());
    assert!(c.proposals.is_empty());
    assert_eq!(c.winner_name(), None);
}

#[test]
fn grant_by_non_chair_is_unauthorized() {
    let chair = "bob.near".to_string();
    let alice = "alice.near".to_string();
    let carol = "carol.near".to_string();
    let mut c = Contract::new(chair.clone(), &names());

    assert_eq!(
        c.give_right_to_vote(&alice, &carol),
        Err(VoteError::Unauthorized)
    );
    // Nothing changed: no record for carol, the chair's record is untouched.
    assert_eq!(c.get_voter(&carol), None);
    assert_eq!(c.get_voter(&chair), Some(&fresh_voter()));
    assert_eq!(c.voters.len(), 1);
}

#[test]
fn grant_twice_is_idempotent() {
    let chair = "bob.near".to_string();
    let alice = "alice.near".to_string();
    let mut c = Contract::new(chair.clone(), &names());

    assert_eq!(c.give_right_to_vote(&chair, &alice), Ok(()));
    let first = c.get_voter(&alice).unwrap().clone();
    assert_eq!(c.give_right_to_vote(&chair, &alice), Ok(()));
    assert_eq!(c.get_voter(&alice), Some(&first));
    assert_eq!(c.voters.len(), 2);
}

#[test]
fn grant_to_committed_voter_fails() {
    let chair = "bob.near".to_string();
    let mut c = Contract::new(chair.clone(), &names());
    assert_eq!(c.vote(&chair, 0), Ok(()));
    assert_eq!(
        c.give_right_to_vote(&chair, &chair),
        Err(VoteError::AlreadyVoted)
    );
}

#[test]
fn self_delegation_is_refused() {
    let chair = "bob.near".to_string();
    let mut c = Contract::new(chair.clone(), &names());
    assert_eq!(c.delegate(&chair, &chair), Err(VoteError::SelfDelegation));
}

#[test]
fn delegation_cycle_is_refused() {
    let chair = "bob.near".to_string();
    let alice = "alice.near".to_string();
    let bob = "bobby.near".to_string();
    let carol = "carol.near".to_string();
    let mut c = Contract::new(chair.clone(), &names());
    assert_eq!(c.give_right_to_vote(&chair, &alice), Ok(()));
    assert_eq!(c.give_right_to_vote(&chair, &bob), Ok(()));
    assert_eq!(c.give_right_to_vote(&chair, &carol), Ok(()));

    // bob -> alice, alice -> carol: the chain from bob now ends at carol.
    assert_eq!(c.delegate(&bob, &alice), Ok(()));
    assert_eq!(c.delegate(&alice, &carol), Ok(()));

    // carol -> bob would walk bob -> alice -> carol: back to the sender.
    assert_eq!(c.delegate(&carol, &bob), Err(VoteError::DelegationCycle));
    // A one-hop cycle is caught as well: alice -> carol already committed,
    // so carol -> alice walks alice -> carol, back to the sender.
    assert_eq!(c.delegate(&carol, &alice), Err(VoteError::DelegationCycle));
}

#[test]
fn delegate_without_right_fails() {
    let chair = "bob.near".to_string();
    let alice = "alice.near".to_string();
    let mut c = Contract::new(chair.clone(), &names());
    assert_eq!(c.delegate(&alice, &chair), Err(VoteError::NoVotingRight));
}

#[test]
fn delegate_to_account_without_right_fails() {
    let chair = "bob.near".to_string();
    let alice = "alice.near".to_string();
    let carol = "carol.near".to_string();
    let mut c = Contract::new(chair.clone(), &names());
    assert_eq!(c.give_right_to_vote(&chair, &alice), Ok(()));

    // carol holds no record, hence no voting weight.
    assert_eq!(
        c.delegate(&alice, &carol),
        Err(VoteError::DelegateHasNoRight)
    );
    // Both accounts are exactly as before.
    assert_eq!(c.get_voter(&alice), Some(&fresh_voter()));
    assert_eq!(c.get_voter(&carol), None);
}

#[test]
fn delegate_after_vote_fails() {
    let chair = "bob.near".to_string();
    let alice = "alice.near".to_string();
    let mut c = Contract::new(chair.clone(), &names());
    assert_eq!(c.give_right_to_vote(&chair, &alice), Ok(()));
    assert_eq!(c.vote(&chair, 1), Ok(()));
    assert_eq!(c.delegate(&chair, &alice), Err(VoteError::AlreadyVoted));
}

#[test]
fn vote_errors() {
    let chair = "bob.near".to_string();
    let alice = "alice.near".to_string();
    let mut c = Contract::new(chair.clone(), &names());

    assert_eq!(c.vote(&alice, 0), Err(VoteError::NoVotingRight));
    assert_eq!(c.vote(&chair, 3), Err(VoteError::InvalidProposalIndex));
    assert_eq!(c.vote(&chair, 1), Ok(()));
    assert_eq!(c.vote(&chair, 1), Err(VoteError::AlreadyVoted));
}

#[test]
fn delegation_before_vote_accumulates_weight() {
    // Proposals A, B, C; grant alice; alice delegates to the chairperson
    // before the chairperson votes; the chairperson then votes for B.
    let chair = "chair.near".to_string();
    let alice = "alice.near".to_string();
    let proposal_names = vec!["A".to_string(), "B".to_string(), "C".to_string()];
    let mut c = Contract::new(chair.clone(), &proposal_names);

    assert_eq!(c.give_right_to_vote(&chair, &alice), Ok(()));
    assert_eq!(c.delegate(&alice, &chair), Ok(()));
    assert_eq!(c.get_voter(&chair).unwrap().weight, 2);

    assert_eq!(c.vote(&chair, 1), Ok(()));
    assert_eq!(c.proposals[1].vote_count, 2);
    assert_eq!(c.winner_name(), Some("B".to_string()));
}

#[test]
fn delegation_chain_resolves_to_terminal() {
    // bob -> alice after alice -> chair: the chain from alice must end at
    // the chairperson, not stop at alice.
    let chair = "chair.near".to_string();
    let alice = "alice.near".to_string();
    let bob = "bob.near".to_string();
    let mut c = Contract::new(chair.clone(), &names());
    assert_eq!(c.give_right_to_vote(&chair, &alice), Ok(()));
    assert_eq!(c.give_right_to_vote(&chair, &bob), Ok(()));

    assert_eq!(c.delegate(&alice, &chair), Ok(()));
    assert_eq!(c.get_voter(&chair).unwrap().weight, 2);

    assert_eq!(c.delegate(&bob, &alice), Ok(()));
    // bob's record points at the terminal delegate, the chairperson.
    assert_eq!(c.get_voter(&bob).unwrap().delegate, Some(chair.clone()));
    assert_eq!(c.get_voter(&chair).unwrap().weight, 3);
    // alice's own record is not inflated by bob's delegation.
    assert_eq!(c.get_voter(&alice).unwrap().weight, 1);
}

#[test]
fn delegation_to_committed_voter_goes_to_proposal() {
    let chair = "chair.near".to_string();
    let alice = "alice.near".to_string();
    let mut c = Contract::new(chair.clone(), &names());
    assert_eq!(c.give_right_to_vote(&chair, &alice), Ok(()));
    assert_eq!(c.vote(&chair, 0), Ok(()));
    assert_eq!(c.proposals[0].vote_count, 1);

    // The chairperson has already voted: alice's weight goes straight onto
    // the chosen proposal, not onto the chairperson's record.
    assert_eq!(c.delegate(&alice, &chair), Ok(()));
    assert_eq!(c.proposals[0].vote_count, 2);
    assert_eq!(c.get_voter(&chair).unwrap().weight, 1);
}

#[test]
fn tally_equals_committed_weight() {
    let chair = "chair.near".to_string();
    let alice = "alice.near".to_string();
    let bob = "bob.near".to_string();
    let mut c = Contract::new(chair.clone(), &names());
    assert_eq!(c.give_right_to_vote(&chair, &alice), Ok(()));
    assert_eq!(c.give_right_to_vote(&chair, &bob), Ok(()));

    let tally = |c: &Contract| c.proposals.iter().map(|p| p.vote_count).sum::<u64>();
    assert_eq!(tally(&c), 0);

    // alice delegates to bob: nothing is committed to any proposal yet.
    assert_eq!(c.delegate(&alice, &bob), Ok(()));
    assert_eq!(tally(&c), 0);

    // bob votes with weight 2: exactly that weight is committed.
    assert_eq!(c.vote(&bob, 2), Ok(()));
    assert_eq!(tally(&c), 2);

    // the chairperson delegates to bob, who has voted: weight 1 joins the tally.
    assert_eq!(c.delegate(&chair, &bob), Ok(()));
    assert_eq!(tally(&c), 3);
    assert_eq!(c.proposals[2].vote_count, 3);
}

#[test]
fn winner_is_first_index_of_maximum() {
    let c = Contract {
        chair_person: "chair.near".to_string(),
        voters: Vec::new(),
        proposals: vec![
            Proposal { name: "A".to_string(), vote_count: 1 },
            Proposal { name: "B".to_string(), vote_count: 4 },
            Proposal { name: "C".to_string(), vote_count: 4 },
            Proposal { name: "D".to_string(), vote_count: 2 },
        ],
    };
    assert_eq!(c.winning_proposal(), Some(1));
    assert_eq!(c.winner_name(), Some("B".to_string()));
}

#[test]
fn winner_is_none_while_all_tallies_are_zero() {
    let chair = "chair.near".to_string();
    let c = Contract::new(chair, &names());
    assert_eq!(c.winning_proposal(), None);
    assert_eq!(c.winner_name(), None);

    let empty = Contract {
        chair_person: "chair.near".to_string(),
        voters: Vec::new(),
        proposals: Vec::new(),
    };
    assert_eq!(empty.winning_proposal(), None);
    assert_eq!(empty.winner_name(), None);
}
