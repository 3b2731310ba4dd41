use dice_roller::dice_specification;
use dice_roller::roll;
use dice_roller::single_die;
use dice_roller::Dice;
use dice_roller::Error;
use dice_roller::Piece;

#[test]
fn roll_dice() {
    assert!(roll("1d6").is_ok());
    assert!(roll("4d20+10").is_ok());
    assert!(roll("0d6+4d5+10+2").is_ok());
    assert!(roll("6d8 + 2 + 5d6").is_ok());
    assert!(roll("6d8 + 2 2 + 5d6").is_err());
}

#[test]
fn die_specification_parsing() {
    assert_eq!(
        single_die("2d8"),
        Ok(("", Piece::Die { count: 2, sides: 8 }))
    );
    assert_eq!(
        single_die("16d20+15"),
        Ok((
            "+15",
            Piece::Die {
                count: 16,
                sides: 20,
            }
        ))
    );
}

#[test]
fn single_die_error_positions() {
    // A bare offset has no "d" after its digits end.
    match single_die("16") {
        Err(e) => {
            assert_eq!(e.text, "16");
            assert_eq!(e.at, 2);
        }
        other => panic!("expected a syntax error, got {:?}", other),
    }
    // A die missing its side count stops right after the "d".
    match single_die("2d") {
        Err(e) => {
            assert_eq!(e.text, "2d");
            assert_eq!(e.at, 2);
        }
        other => panic!("expected a syntax error, got {:?}", other),
    }
    // No digits at all: parsing stops at the start.
    match single_die("d6") {
        Err(e) => assert_eq!(e.at, 0),
        other => panic!("expected a syntax error, got {:?}", other),
    }
}

#[test]
fn die_specification_with_offset_parsing() {
    assert_eq!(
        dice_specification("2d8+1"),
        Ok(Dice {
            pieces: vec![Piece::Die { count: 2, sides: 8 }, Piece::Offset(1)]
        })
    );
    assert_eq!(
        dice_specification("2d8  +  1"),
        Ok(Dice {
            pieces: vec![Piece::Die { count: 2, sides: 8 }, Piece::Offset(1)]
        })
    );
}

#[test]
fn scenario_single_die() {
    assert_eq!(
        dice_specification("1d6"),
        Ok(Dice {
            pieces: vec![Piece::Die { count: 1, sides: 6 }]
        })
    );
    for _ in 0..200 {
        let v = roll("1d6").unwrap();
        assert!((1..=6).contains(&v));
    }
}

#[test]
fn scenario_die_with_offset() {
    assert_eq!(
        dice_specification("4d20+10"),
        Ok(Dice {
            pieces: vec![
                Piece::Die {
                    count: 4,
                    sides: 20,
                },
                Piece::Offset(10),
            ]
        })
    );
    for _ in 0..200 {
        let v = roll("4d20+10").unwrap();
        assert!((14..=90).contains(&v));
    }
}

#[test]
fn scenario_four_terms() {
    assert_eq!(
        dice_specification("0d6+4d5+10+2"),
        Ok(Dice {
            pieces: vec![
                Piece::Die { count: 0, sides: 6 },
                Piece::Die { count: 4, sides: 5 },
                Piece::Offset(10),
                Piece::Offset(2),
            ]
        })
    );
    for _ in 0..200 {
        let v = roll("0d6+4d5+10+2").unwrap();
        assert!((16..=32).contains(&v));
    }
}

#[test]
fn scenario_interior_spacing() {
    assert!(dice_specification("6d8 + 2 + 5d6").is_ok());
    for _ in 0..200 {
        let v = roll("6d8 + 2 + 5d6").unwrap();
        assert!((13..=80).contains(&v));
    }
}

#[test]
fn scenario_stray_token_rejected() {
    assert!(dice_specification("6d8 + 2 2 + 5d6").is_err());
}

#[test]
fn scenario_spacing_parses_identically() {
    assert_eq!(dice_specification("2d8+1"), dice_specification("2d8  +  1"));
}

#[test]
fn parsing_is_deterministic() {
    assert_eq!(dice_specification("1d6+2d4+3"), dice_specification("1d6+2d4+3"));
    assert_eq!(
        dice_specification("6d8 + 2 2 + 5d6").is_err(),
        dice_specification("6d8 + 2 2 + 5d6").is_err()
    );
}

#[test]
fn whitespace_rules() {
    // Leading and trailing spacing and spacing around separators is
    // ignored.
    assert!(roll(" 1d6").is_ok());
    assert!(roll("\t1d6").is_ok());
    assert!(roll("1d6\t+\t2").is_ok());
    assert!(roll("1d6 ").is_ok());
    assert!(roll("1d6\t").is_ok());
    assert!(roll("1d6 + 2 ").is_ok());
    assert!(roll(" 2d4 + 1 ").is_ok());
    // Spacing inside a die term splits it into unconsumable tokens.
    assert!(roll("1 d6").is_err());
    assert!(roll("1d 6").is_err());
}

#[test]
fn malformed_inputs_fail_to_parse() {
    assert!(roll("").is_err());
    assert!(roll(" ").is_err());
    assert!(roll("+").is_err());
    assert!(roll("+3").is_err());
    assert!(roll("2d").is_err());
    assert!(roll("d6").is_err());
    assert!(roll("4d20+").is_err());
    assert!(roll("4d20++1").is_err());
    assert!(roll("2x").is_err());
    assert!(roll("1d6-2").is_err());
}

#[test]
fn non_ascii_input_is_rejected() {
    // Only ASCII digits, 'd', '+' and spacing belong to the grammar.
    assert!(roll("1d\u{e9}6").is_err());
    assert!(roll("\u{b2}d6").is_err());
    assert!(roll("1d6\u{a0}+\u{a0}2").is_err());
}

#[test]
fn syntax_error_carries_text_and_position() {
    match roll("2 2") {
        Err(Error::Syntax(e)) => {
            assert_eq!(e.text, "2 2");
            // Parsing stops at the stray second "2": the first offset
            // ends at 1 and the space before the leftover is consumed.
            assert_eq!(e.at, 2);
        }
        other => panic!("expected a syntax error, got {:?}", other),
    }
    match roll("4d20+") {
        Err(Error::Syntax(e)) => {
            assert_eq!(e.text, "4d20+");
            // The first piece ends at 4; the dangling "+" is leftover.
            assert_eq!(e.at, 4);
        }
        other => panic!("expected a syntax error, got {:?}", other),
    }
}

#[test]
fn validation_error_carries_text_and_cause() {
    match roll("1d0") {
        Err(Error::Validation { text, cause }) => {
            assert_eq!(text, "1d0");
            assert_eq!(cause.sides, 0);
        }
        other => panic!("expected a validation error, got {:?}", other),
    }
}

#[test]
fn error_messages() {
    match roll("2 2") {
        Err(e) => assert_eq!(e.message(), "failed to parse '2 2' at character 2"),
        other => panic!("expected an error, got {:?}", other),
    }
    match roll("1d0") {
        Err(e) => assert_eq!(e.message(), "failed to roll '1d0': too few sides: 0"),
        other => panic!("expected an error, got {:?}", other),
    }
}

#[test]
fn zero_sides_fails_validation_not_parsing() {
    // "1d0" is grammatically fine ...
    assert_eq!(
        dice_specification("1d0"),
        Ok(Dice {
            pieces: vec![Piece::Die { count: 1, sides: 0 }]
        })
    );
    // ... but is rejected by validation, reporting the offending count.
    match roll("1d0") {
        Err(Error::Validation { cause, .. }) => assert_eq!(cause.sides, 0),
        other => panic!("expected a validation error, got {:?}", other),
    }
    assert!(roll("0d0").is_err());
    assert!(roll("2d6+3d0+1").is_err());
}

#[test]
fn zero_count_contributes_nothing() {
    assert_eq!(roll("0d6"), Ok(0));
    assert_eq!(roll("0d6+7"), Ok(7));
}

#[test]
fn one_sided_dice_are_exact() {
    // A one-sided die can only roll a 1, which pins the random draws.
    assert_eq!(roll("1d1"), Ok(1));
    assert_eq!(roll("3d1+2"), Ok(5));
    assert_eq!(roll("10d1+0d9+4"), Ok(14));
}

#[test]
fn offsets_alone_sum_exactly() {
    assert_eq!(roll("16"), Ok(16));
    assert_eq!(roll("2+3+4"), Ok(9));
}

#[test]
fn numeric_width_limits() {
    // The largest representable offset is accepted ...
    assert_eq!(roll("18446744073709551615"), Ok(u64::MAX));
    // ... and one past it fails to parse rather than wrapping.
    assert!(roll("18446744073709551616").is_err());
    assert!(roll("99999999999999999999d6").is_err());
    assert!(roll("1d99999999999999999999").is_err());
    // Leading zeros are only about the value, not the width.
    assert_eq!(roll("000018446744073709551615"), Ok(u64::MAX));
    // A die with the largest side count is fine.
    assert!(roll("1d18446744073709551615").is_ok());
}

#[test]
fn saturating_sum() {
    // Two maximal offsets overflow the sum, which saturates.
    assert_eq!(roll("18446744073709551615+18446744073709551615"), Ok(u64::MAX));
    assert_eq!(roll("18446744073709551615+1d1"), Ok(u64::MAX));
}
