use agari::four::agari::{allsets, comb, get_pairs, is_chow, is_pung, sort_tiles};
use agari::four::hand::{Hand, HANDMAXSCORE, HANDVARIANT};
use agari::four::handchecker::HandList;
use agari::four::set::{BuildError, Meld, MeldKind, Pair, SetBuilder};
use agari::four::tile::{Tile, TileColor};

#[test]
fn agari_comb_all_pungs() {
    let raw = vec![
        b'A', b'A', b'B', b'B', b'B', b'C', b'C', b'C', b'D', b'D', b'D', b'E', b'E', b'E',
    ];

    assert_eq!(comb(&raw), 6 * 4 * 4 * 4 * 4);
}

#[test]
fn ex_agari_comb_all_pungs() {
    let raw = vec![
        b'A', b'A', b'B', b'B', b'B', b'C', b'C', b'C', b'D', b'D', b'D', b'E', b'E', b'E',
    ];

    assert_eq!(comb(&raw), 6 * 4 * 4 * 4 * 4);
}

// One pair plus four pungs of simple-suit tiles: the classification must see
// all pungs and must not see all chows, and the occurrence weight of the
// record is C(4,2) * C(4,3)^4.
#[test]
fn four_all_pungs_scenario() {
    let raw = vec![
        b'H', b'H', b'K', b'K', b'K', b'R', b'R', b'R', b'W', b'W', b'W', b'^', b'^', b'^',
    ];
    let sets = allsets(&raw).unwrap();
    assert!(!sets.is_empty());
    for s in &sets {
        let list = s.hands();
        assert!(list.get(Hand::AllPungs as usize));
        assert!(!list.get(Hand::AllChows as usize));
    }
    assert_eq!(comb(&raw), 6 * 4 * 4 * 4 * 4);
}

// All fourteen tiles honors, four pungs plus a pair: the all-honors bit is
// set, every other bit is cleared by the exclusivity override, and the score
// is clamped at the maximum.
#[test]
fn four_all_honors_scenario() {
    let raw = vec![
        b'A', b'A', b'D', b'D', b'D', b'E', b'E', b'E', b'F', b'F', b'F', b'G', b'G', b'G',
    ];
    let sets = allsets(&raw).unwrap();
    assert!(!sets.is_empty());
    for s in &sets {
        let list = s.hands();
        assert!(list.get(Hand::AllHonors as usize));
        for i in 0..HANDVARIANT {
            if i != Hand::AllHonors as usize {
                assert!(!list.get(i));
            }
        }
        assert_eq!(list.score(), HANDMAXSCORE);
    }
}

// Four chows and a pair: decomposition completeness on a hand built from
// melds by construction, and the round-trip of every returned decomposition
// back to the record's tile multiset.
#[test]
fn four_chow_roundtrip() {
    let mut raw = vec![
        b'H', b'I', b'J', b'K', b'L', b'M', b'Q', b'R', b'S', b'Z', b'[', b'\\', b'b', b'b',
    ];
    let sets = allsets(&raw).unwrap();
    assert!(!sets.is_empty());
    raw.sort();
    for s in &sets {
        let mut tiles: Vec<u8> = Vec::new();
        let pair_code = s.pair().head().to_char() as u8;
        tiles.push(pair_code);
        tiles.push(pair_code);
        for m in s.melds() {
            let h = m.head().to_char() as u8;
            if m.kind().is_chow() {
                tiles.push(h);
                tiles.push(h + 1);
                tiles.push(h + 2);
            } else {
                tiles.push(h);
                tiles.push(h);
                tiles.push(h);
            }
        }
        tiles.sort();
        assert_eq!(tiles, raw);
        let list = s.hands();
        assert!(list.get(Hand::AllChows as usize));
    }
}

// Deduplication and determinism: a hand decomposable both as three pungs and
// as three identical chows yields exactly the two canonical decompositions,
// pairwise distinct, and a reordered record yields the same list.
#[test]
fn four_dedup_and_determinism() {
    let raw = vec![
        b'H', b'H', b'H', b'I', b'I', b'I', b'J', b'J', b'J', b'U', b'U', b'W', b'X', b'Y',
    ];
    let shuffled = vec![
        b'Y', b'H', b'U', b'I', b'J', b'H', b'I', b'X', b'J', b'U', b'H', b'I', b'J', b'W',
    ];
    let sets = allsets(&raw).unwrap();
    let sets2 = allsets(&shuffled).unwrap();
    assert_eq!(sets.len(), 2);
    assert!(sets[0] != sets[1]);
    assert_eq!(sets.len(), sets2.len());
    for i in 0..sets.len() {
        assert!(sets[i] == sets2[i]);
    }
}

// A record with a byte outside the tile alphabet is a decode failure.
#[test]
fn four_decode_error() {
    let raw = vec![
        b' ', b'A', b'B', b'B', b'B', b'C', b'C', b'C', b'D', b'D', b'D', b'E', b'E', b'E',
    ];
    assert!(allsets(&raw).is_none());
}

// A valid record admitting no decomposition yields the empty list, not an
// error.
#[test]
fn four_no_decomposition() {
    let raw = vec![
        b'A', b'A', b'A', b'A', b'B', b'B', b'B', b'B', b'C', b'C', b'C', b'C', b'D', b'D',
    ];
    let sets = allsets(&raw).unwrap();
    assert!(sets.is_empty());
}

// The pure straight: chows 1-2-3, 4-5-6, 7-8-9 of one suit.
#[test]
fn four_pure_straight_scenario() {
    // B1..B9 as three chows, a pung of C5, pair D9.
    let raw = vec![
        b'H', b'I', b'J', b'K', b'L', b'M', b'N', b'O', b'P', b'U', b'U', b'U', b'b', b'b',
    ];
    let sets = allsets(&raw).unwrap();
    assert!(!sets.is_empty());
    let mut found = false;
    for s in &sets {
        let list = s.hands();
        if list.get(Hand::PureStraight as usize) {
            found = true;
        }
    }
    assert!(found);
}

#[test]
fn four_tile_model() {
    assert_eq!(Tile::from_byte(b'A'), Some(Tile::Red));
    assert_eq!(Tile::from_byte(b'H'), Some(Tile::B1));
    assert_eq!(Tile::from_byte(b'b'), Some(Tile::D9));
    assert_eq!(Tile::from_byte(b'c'), None);
    assert_eq!(Tile::from_byte(b'@'), None);
    assert_eq!(Tile::B1.to_char(), 'H');
    assert!(Tile::B1.is_terminal());
    assert!(!Tile::B1.is_simple());
    assert!(Tile::B5.is_simple());
    assert!(Tile::East.is_wind());
    assert!(Tile::Red.is_dragon());
    assert!(Tile::Red.is_honor());
    assert_eq!(Tile::C4.number(), 4);
    assert_eq!(Tile::C4.color(), TileColor::Character);
    assert!(Tile::B4.is_ascending(Tile::B5));
    assert!(!Tile::B9.is_ascending(Tile::C1));
    assert!(Tile::B5.is_descending(Tile::B4));
    assert!(Tile::B4.is_neighbor(Tile::B5));
    assert!(Tile::B4.is_same_color(Tile::B9));
    assert!(!Tile::B4.is_same_color(Tile::C4));
}

#[test]
fn four_meld_shapes() {
    let chow = vec![Tile::B1, Tile::B2, Tile::B3];
    let pung = vec![Tile::C4, Tile::C4, Tile::C4];
    let junk = vec![Tile::B1, Tile::B2, Tile::C3];
    assert!(is_chow(&chow));
    assert!(!is_pung(&chow));
    assert!(is_pung(&pung));
    assert!(!is_chow(&pung));
    assert!(!is_chow(&junk));
    assert!(!is_pung(&junk));
    let short = vec![Tile::B1, Tile::B2];
    assert!(!is_chow(&short));
    assert!(!is_pung(&short));
}

#[test]
fn four_builder_lifecycle() {
    let m = Meld::new(Tile::B1, MeldKind::ConcealedChow);
    assert_eq!(m.head(), Tile::B1);
    assert!(m.kind().is_chow());
    assert!(m.kind().is_concealed());
    assert!(!m.kind().is_kong());
    let p = Pair::new(Tile::East, true);
    assert!(p.is_concealed());
    let sb = SetBuilder::new().add_pair(p);
    let sb = sb.add_meld(Meld::new(Tile::B1, MeldKind::ConcealedChow)).unwrap();
    assert_eq!(sb.clone().build().unwrap_err(), BuildError::MeldsMissing);
    let sb = sb.add_meld(Meld::new(Tile::C1, MeldKind::ConcealedChow)).unwrap();
    let sb = sb.add_meld(Meld::new(Tile::D1, MeldKind::ConcealedChow)).unwrap();
    let sb = sb.add_meld(Meld::new(Tile::B5, MeldKind::ConcealedPung)).unwrap();
    assert_eq!(
        sb.clone().add_meld(Meld::new(Tile::B7, MeldKind::ConcealedPung)).unwrap_err(),
        BuildError::MeldsFull
    );
    let set = sb.build().unwrap();
    assert_eq!(set.pair().head(), Tile::East);
    assert_eq!(set.melds().len(), 4);
    let no_pair = SetBuilder::new()
        .add_meld(Meld::new(Tile::B1, MeldKind::ConcealedChow))
        .unwrap()
        .add_meld(Meld::new(Tile::C1, MeldKind::ConcealedChow))
        .unwrap()
        .add_meld(Meld::new(Tile::D1, MeldKind::ConcealedChow))
        .unwrap()
        .add_meld(Meld::new(Tile::B5, MeldKind::ConcealedPung))
        .unwrap();
    assert_eq!(no_pair.build().unwrap_err(), BuildError::PairMissing);
}

#[test]
fn four_hand_catalogue() {
    assert_eq!(Hand::AllChows.score(), 1);
    assert_eq!(Hand::AllHonors.score(), HANDMAXSCORE);
    assert_eq!(Hand::NoPoint.score(), 0);
    assert_eq!(Hand::PureStraight.score(), 4);
    assert_eq!(Hand::AllChows.name(), "平和");
    assert_eq!(Hand::RedPung.name(), "役牌");
    assert_eq!(Hand::NoPoint.name(), "無役");
    assert_eq!(Hand::from_index(0), Some(Hand::AllChows));
    assert_eq!(Hand::from_index(HANDVARIANT - 1), Some(Hand::NoPoint));
    assert_eq!(Hand::from_index(HANDVARIANT), None);
}

#[test]
fn four_handlist_score_clamps() {
    let mut hl = HandList::new();
    assert_eq!(hl.score(), 0);
    assert!(!hl.any());
    hl.set(Hand::AllHonors as usize, true);
    hl.set(Hand::BigFourWinds as usize, true);
    assert!(hl.any());
    assert_eq!(hl.score(), HANDMAXSCORE);
}

#[test]
fn four_sort_tiles_orders_records() {
    let mut v = vec![Tile::D9, Tile::B1, Tile::Red, Tile::C5];
    sort_tiles(&mut v);
    assert_eq!(v, vec![Tile::Red, Tile::B1, Tile::C5, Tile::D9]);
}

#[test]
fn four_get_pairs_excludes_pung_starts() {
    // Sorted record with a lone pair and a triple: the triple start is not a
    // pair candidate.
    let mut tiles: Vec<Tile> = Vec::new();
    for b in [
        b'A', b'A', b'D', b'D', b'D', b'E', b'E', b'E', b'F', b'F', b'F', b'G', b'G', b'G',
    ] {
        tiles.push(Tile::from_byte(b).unwrap());
    }
    let branches = get_pairs(&tiles);
    // candidates: index 0 (the lone pair) and the second positions inside
    // each of the four triples.
    assert_eq!(branches.len(), 5);
}
