use dplmt_router::booth::{BoothId, SecurityRating};
use dplmt_router::ROUND_TABLE_SEAT_COUNT;

#[test]
fn booth_names_and_labels() {
    assert_eq!(BoothId::Allbridge.name(), "Allbridge Core");
    assert_eq!(BoothId::Debridge.name(), "deBridge");
    assert_eq!(BoothId::Synapse.label(), "Booth VIII -- Veteran Embassy");
    assert_eq!(BoothId::Mayan.label(), "Booth III -- Swift Auction House");
    assert_eq!(BoothId::Debridge.debug_name(), format!("{:?}", BoothId::Debridge));
}

#[test]
fn eight_seats() {
    let all = BoothId::all();
    assert_eq!(ROUND_TABLE_SEAT_COUNT, 8);
    assert_eq!(all.len(), ROUND_TABLE_SEAT_COUNT);
    for b in all {
        assert_eq!(b.debug_name(), format!("{:?}", b));
    }
    for i in 0..8 {
        for j in 0..8 {
            assert_eq!(i == j, all[i] == all[j]);
        }
    }
}

#[test]
fn rating_weights() {
    assert_eq!(SecurityRating::A.weight(), 100);
    assert_eq!(SecurityRating::B.weight(), 75);
    assert_eq!(SecurityRating::C.weight(), 50);
}
