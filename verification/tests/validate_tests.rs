//! Tests of the validation-fold precedence and the validate invocation.

use dht_cascade::entry::Entry;
use dht_cascade::hash::{HashRole, HoloHash, HASH_DIGEST_LEN};
use dht_cascade::event::{DhtArc, FetchOpHashDataEvt, SignNetworkDataEvt};
use dht_cascade::msg::{Msg, Post};
use dht_cascade::validate::{
    ValidateCallbackResult, ValidateInvocation, ValidateResult, ZomeName, ZomesToInvoke,
};

fn raw(seed: u8) -> Vec<u8> {
    (0..HASH_DIGEST_LEN).map(|i| seed.wrapping_add(i as u8)).collect()
}

fn agent(seed: u8) -> HoloHash {
    HoloHash::from_raw_36(HashRole::Agent, raw(seed))
}

fn cb_valid() -> ValidateCallbackResult {
    ValidateCallbackResult::Valid
}

fn cb_ud() -> ValidateCallbackResult {
    ValidateCallbackResult::UnresolvedDependencies(vec![])
}

fn cb_invalid() -> ValidateCallbackResult {
    ValidateCallbackResult::Invalid("".to_string())
}

fn is_valid(r: &ValidateResult) -> bool {
    matches!(r, ValidateResult::Valid)
}

fn is_ud(r: &ValidateResult) -> bool {
    matches!(r, ValidateResult::UnresolvedDependencies(_))
}

fn is_invalid(r: &ValidateResult) -> bool {
    matches!(r, ValidateResult::Invalid(_))
}

#[test]
fn validate_callback_result_fold() {
    // Invalid dominates, then unresolved dependencies, then valid —
    // whatever the order and however often a result repeats.
    let cases: Vec<(Vec<ValidateCallbackResult>, fn(&ValidateResult) -> bool)> = vec![
        (vec![], is_valid),
        (vec![cb_valid()], is_valid),
        (vec![cb_invalid()], is_invalid),
        (vec![cb_ud()], is_ud),
        (vec![cb_invalid(), cb_valid()], is_invalid),
        (vec![cb_valid(), cb_invalid()], is_invalid),
        (vec![cb_invalid(), cb_ud()], is_invalid),
        (vec![cb_ud(), cb_invalid()], is_invalid),
        (vec![cb_valid(), cb_ud()], is_ud),
        (vec![cb_ud(), cb_valid()], is_ud),
        (vec![cb_valid(), cb_ud(), cb_invalid()], is_invalid),
        (vec![cb_invalid(), cb_ud(), cb_valid(), cb_invalid()], is_invalid),
        (vec![cb_valid(), cb_valid(), cb_valid()], is_valid),
        (vec![cb_ud(), cb_ud()], is_ud),
    ];
    for (results, expected) in cases {
        let folded = ValidateResult::from_callback_results(results);
        assert!(expected(&folded));
    }
}

#[test]
fn fold_keeps_last_invalid_reason() {
    let results = vec![
        ValidateCallbackResult::Invalid("first".to_string()),
        ValidateCallbackResult::Invalid("second".to_string()),
    ];
    match ValidateResult::from_callback_results(results) {
        ValidateResult::Invalid(reason) => assert_eq!(reason, "second"),
        _ => panic!("two invalid results must fold to invalid"),
    }
}

#[test]
fn zome_results_drop_names() {
    let named = vec![
        (ZomeName("a".to_string()), cb_valid()),
        (ZomeName("b".to_string()), cb_ud()),
    ];
    assert!(is_ud(&ValidateResult::from_zome_results(named)));
}

#[test]
fn validate_invocation_zomes() {
    let inv = ValidateInvocation::new(
        ZomeName("myzome".to_string()),
        Entry::Agent(agent(1)),
    );
    match inv.zomes() {
        ZomesToInvoke::One(z) => assert_eq!(z.0, "myzome"),
        _ => panic!("an entry validates only in its own zome"),
    }
}

#[test]
fn validate_invocation_fn_components() {
    let zome = || ZomeName("z".to_string());
    let cases: Vec<(Entry, &str)> = vec![
        (Entry::Agent(agent(1)), "validate_agent"),
        (Entry::app(vec![1, 2]).unwrap(), "validate_entry"),
        (
            Entry::CapClaim(dht_cascade::entry::CapClaim {
                tag: "t".to_string(),
                grantor: agent(2),
                secret: vec![],
            }),
            "validate_cap_claim",
        ),
        (
            Entry::CapGrant(dht_cascade::entry::ZomeCallCapGrant {
                tag: "t".to_string(),
                secret: vec![],
            }),
            "validate_cap_grant",
        ),
    ];
    for (entry, expected) in cases {
        let inv = ValidateInvocation::new(zome(), entry);
        let components = inv.fn_components();
        // Iteration yields the most specific callback name first.
        let mut remaining = vec!["validate", expected];
        for component in &components {
            assert_eq!(component, remaining.pop().unwrap());
        }
        assert!(remaining.is_empty());
    }
}

#[test]
fn post_and_msg_entries_differ() {
    let p = Post("same text".to_string()).to_entry().unwrap();
    let m = Msg("same text".to_string()).to_entry().unwrap();
    let ph = dht_cascade::entry::hash_entry(&p);
    let mh = dht_cascade::entry::hash_entry(&m);
    assert!(!ph.same(&mh));
    match (p, m) {
        (Entry::App(pb), Entry::App(mb)) => {
            assert_eq!(pb.bytes()[0], 0);
            assert_eq!(mb.bytes()[0], 1);
            assert_eq!(&pb.bytes()[1..], b"same text");
        },
        _ => panic!("posts and messages commit as app entries"),
    }
}

#[test]
fn events_carry_plain_data() {
    let e = FetchOpHashDataEvt {
        space: HoloHash::from_raw_36(HashRole::Dna, raw(1)),
        agent: agent(2),
        op_hashes: vec![HoloHash::from_raw_36(HashRole::DhtOp, raw(3))],
    };
    assert_eq!(e.op_hashes.len(), 1);
    let s = SignNetworkDataEvt {
        space: HoloHash::from_raw_36(HashRole::Dna, raw(1)),
        agent: agent(2),
        data: vec![1, 2, 3],
    };
    assert_eq!(s.data, vec![1, 2, 3]);
    let arc = DhtArc { center_loc: 7, half_length: 3 };
    assert_eq!(arc.center_loc, 7);
}
