use agari::three::agari::{allsets, comb};
use agari::three::exposure::{add_reveal, can_kong, no_dup, occurance};
use agari::three::hand::{Hand, HANDMAXSCORE, HANDVARIANT};
use agari::three::handchecker::HandList;
use agari::three::set::{Meld, MeldKind, Pair, SetBuilder};
use agari::three::stats::{fold_record, new_stats};
use agari::three::tile::Tile;

#[test]
fn ex_agari_is_ok() {
    assert_eq!(2 + 2, 4);
}

#[test]
fn ex_list_is_ok() {
    assert_eq!(2 + 2, 4);
}

#[test]
fn handlist_score() {
    let hl = HandList::new();
    assert_eq!(hl.score(), 0);
}

#[test]
fn handlist_pattern_score() {
    let mut hl = HandList::new();
    hl.set(Hand::AllChows as usize, true);
    hl.set(Hand::HalfFlush as usize, true);
    hl.set(Hand::OutsideHands as usize, true);
}

// Three same-rank chows across the three suits with a matching pair: mixed
// triple chow is set and triple pung is not.
#[test]
fn three_mixed_triple_chow_scenario() {
    // Pair of Sun, chows B2-B3-B4, C2-C3-C4, D2-D3-D4.
    let raw = vec![
        b'A', b'A', b'G', b'H', b'I', b'M', b'N', b'O', b'S', b'T', b'U',
    ];
    let sets = allsets(&raw).unwrap();
    assert!(!sets.is_empty());
    let mut found = false;
    for s in &sets {
        let list = s.hands();
        if list.get(Hand::MixedTripleChow as usize) {
            found = true;
        }
        assert!(!list.get(Hand::TriplePung as usize));
    }
    assert!(found);
}

// All eleven tiles honors, three pungs plus a pair: the all-honors bit is
// set, every other bit is cleared by the exclusivity override, and the score
// is clamped at the maximum.
#[test]
fn three_all_honors_scenario() {
    // Pair of Green; pungs of Sun, Moon, White.
    let raw = vec![
        b'A', b'A', b'A', b'B', b'B', b'B', b'D', b'D', b'E', b'E', b'E',
    ];
    let sets = allsets(&raw).unwrap();
    assert!(!sets.is_empty());
    for s in &sets {
        let list = s.hands();
        assert!(list.get(Hand::AllHonors as usize));
        for i in 0..HANDVARIANT {
            if i != Hand::AllHonors as usize {
                assert!(!list.get(i));
            }
        }
        assert_eq!(list.score(), HANDMAXSCORE);
    }
}

// One pair plus three pungs: all pungs, not all chows, and the occurrence
// weight of the record is C(4,2) * C(4,3)^3.
#[test]
fn three_all_pungs_scenario() {
    let raw = vec![
        b'F', b'F', b'I', b'I', b'I', b'M', b'M', b'M', b'S', b'S', b'S',
    ];
    let sets = allsets(&raw).unwrap();
    assert!(!sets.is_empty());
    for s in &sets {
        let list = s.hands();
        assert!(list.get(Hand::AllPungs as usize));
        assert!(!list.get(Hand::AllChows as usize));
    }
    assert_eq!(comb(&raw), 6 * 4 * 4 * 4);
}

// Round trip: every decomposition flattens back to the record's multiset.
#[test]
fn three_roundtrip() {
    let mut raw = vec![
        b'F', b'G', b'H', b'L', b'M', b'N', b'R', b'S', b'T', b'W', b'W',
    ];
    let sets = allsets(&raw).unwrap();
    assert!(!sets.is_empty());
    raw.sort();
    for s in &sets {
        let mut tiles: Vec<u8> = Vec::new();
        let pair_code = s.pair().head().to_char() as u8;
        tiles.push(pair_code);
        tiles.push(pair_code);
        for m in s.melds() {
            let h = m.head().to_char() as u8;
            if m.kind().is_chow() {
                tiles.push(h);
                tiles.push(h + 1);
                tiles.push(h + 2);
            } else {
                tiles.push(h);
                tiles.push(h);
                tiles.push(h);
            }
        }
        tiles.sort();
        assert_eq!(tiles, raw);
    }
}

// Deduplication and determinism: the three-pungs-or-three-chows hand yields
// exactly two distinct decompositions, and a reordered record the same list.
#[test]
fn three_dedup_and_determinism() {
    let raw = vec![
        b'F', b'F', b'F', b'G', b'G', b'G', b'H', b'H', b'H', b'P', b'P',
    ];
    let shuffled = vec![
        b'P', b'F', b'G', b'H', b'F', b'G', b'H', b'F', b'G', b'H', b'P',
    ];
    let sets = allsets(&raw).unwrap();
    let sets2 = allsets(&shuffled).unwrap();
    assert_eq!(sets.len(), 2);
    assert!(sets[0] != sets[1]);
    assert_eq!(sets.len(), sets2.len());
    for i in 0..sets.len() {
        assert!(sets[i] == sets2[i]);
    }
}

#[test]
fn three_decode_error() {
    let raw = vec![
        b'X', b'A', b'A', b'B', b'B', b'B', b'D', b'D', b'E', b'E', b'E',
    ];
    assert!(allsets(&raw).is_none());
}

#[test]
fn three_no_decomposition() {
    let raw = vec![
        b'A', b'A', b'A', b'A', b'B', b'B', b'B', b'B', b'C', b'C', b'C',
    ];
    let sets = allsets(&raw).unwrap();
    assert!(sets.is_empty());
}

#[test]
fn three_tile_model() {
    assert_eq!(Tile::from_byte(b'A'), Some(Tile::Sun));
    assert_eq!(Tile::from_byte(b'W'), Some(Tile::D6));
    assert_eq!(Tile::from_byte(b'X'), None);
    assert!(Tile::Sun.is_dragon());
    assert!(Tile::Red.is_wind());
    assert!(Tile::B1.is_terminal());
    assert!(Tile::B6.is_terminal());
    assert!(Tile::B3.is_simple());
    assert_eq!(Tile::C5.number(), 5);
    assert!(Tile::B5.is_ascending(Tile::B6));
    assert!(!Tile::B6.is_ascending(Tile::C1));
}

#[test]
fn three_hand_catalogue() {
    assert_eq!(Hand::AllChows.score(), 0);
    assert_eq!(Hand::BigThreeWinds.score(), HANDMAXSCORE);
    assert_eq!(Hand::AllTerminals.score(), 9);
    assert_eq!(Hand::AllChows.name(), "平和");
    assert_eq!(Hand::MoonPung.name(), "役牌");
    assert_eq!(Hand::from_index(24), Some(Hand::NoPoint));
    assert_eq!(Hand::from_index(25), None);
}

// Score boundedness on a stacked hand: weights sum past the cap and the
// score clamps.
#[test]
fn three_score_clamp() {
    let mut hl = HandList::new();
    hl.set(Hand::BigThreeWinds as usize, true);
    hl.set(Hand::AllPungs as usize, true);
    assert_eq!(hl.score(), HANDMAXSCORE);
    let mut hl2 = HandList::new();
    hl2.set(Hand::AllPungs as usize, true);
    hl2.set(Hand::HalfFlush as usize, true);
    assert_eq!(hl2.score(), 8);
}

// A hand matching no named category carries exactly the no-point bit.
#[test]
fn three_no_point_fallback() {
    // Pair D6-D6; melds B1-B2-B3 chow, C1 pung, C4-C5-C6 chow: mixed suits,
    // boundary-touching chows, nothing named matches.
    let raw = vec![
        b'F', b'G', b'H', b'L', b'L', b'L', b'O', b'P', b'Q', b'W', b'W',
    ];
    let sets = allsets(&raw).unwrap();
    assert!(!sets.is_empty());
    for s in &sets {
        let list = s.hands();
        assert!(list.any());
        if list.get(Hand::NoPoint as usize) {
            for i in 0..HANDVARIANT {
                if i != Hand::NoPoint as usize {
                    assert!(!list.get(i));
                }
            }
        }
    }
}

#[test]
fn three_reveal_alternatives() {
    let chow = Meld::new(Tile::B2, MeldKind::ConcealedChow);
    let pung = Meld::new(Tile::C3, MeldKind::ConcealedPung);
    let other = Meld::new(Tile::D4, MeldKind::ConcealedPung);
    assert!(no_dup(pung, other));
    assert!(!no_dup(pung, Meld::new(Tile::C3, MeldKind::ConcealedChow)));
    assert!(!no_dup(pung, Meld::new(Tile::C4, MeldKind::ConcealedChow)));
    assert!(can_kong(pung, chow, other));
    assert!(!can_kong(pung, Meld::new(Tile::C4, MeldKind::ConcealedChow), other));
    let alts = add_reveal(chow, pung, other);
    assert_eq!(alts.len(), 2);
    assert_eq!(alts[0], chow);
    assert_eq!(alts[1], Meld::new(Tile::B2, MeldKind::RevealedChow));
    let alts2 = add_reveal(pung, chow, other);
    assert_eq!(alts2.len(), 4);
    assert_eq!(alts2[2], Meld::new(Tile::C3, MeldKind::ConcealedKong));
    let blocked = add_reveal(pung, Meld::new(Tile::C3, MeldKind::ConcealedChow), other);
    assert_eq!(blocked.len(), 2);
}

#[test]
fn three_occurance_weights() {
    let set = SetBuilder::new()
        .add_pair(Pair::new(Tile::D6, true))
        .add_meld(Meld::new(Tile::B1, MeldKind::ConcealedPung))
        .unwrap()
        .add_meld(Meld::new(Tile::C1, MeldKind::RevealedChow))
        .unwrap()
        .add_meld(Meld::new(Tile::D1, MeldKind::RevealedKong))
        .unwrap()
        .build()
        .unwrap();
    let checker = set.to_handchecker(Tile::Red);
    assert_eq!(occurance(&checker, 10), 10 * 31 * 7 * 16 * 3);
}

#[test]
fn three_fold_record_totals() {
    let mut stats = new_stats();
    let mut hl = HandList::new();
    hl.set(Hand::AllPungs as usize, true);
    hl.set(Hand::HalfFlush as usize, true);
    fold_record(&mut stats, &hl, 10);
    fold_record(&mut stats, &hl, 5);
    let i = Hand::AllPungs as usize;
    assert_eq!(stats[i].patterns, 2);
    assert_eq!(stats[i].occurrences, 15);
    // the hand scores 4 + 4 = 8
    assert_eq!(stats[i].total_score, 120);
    let j = Hand::AllChows as usize;
    assert_eq!(stats[j].patterns, 0);
}
