use rust_perf_comp::magnitude::Magnitude;

#[test]
fn zero_classifies_as_unit_bucket() {
    assert_eq!(Magnitude::classify(0), Magnitude::E0);
}

#[test]
fn bucket_boundaries() {
    assert_eq!(Magnitude::classify(999), Magnitude::E0);
    assert_eq!(Magnitude::classify(1_000), Magnitude::E3);
    assert_eq!(Magnitude::classify(999_999), Magnitude::E3);
    assert_eq!(Magnitude::classify(1_000_000), Magnitude::E6);
}

#[test]
fn representative_decades() {
    assert_eq!(Magnitude::classify(1), Magnitude::E0);
    assert_eq!(Magnitude::classify(1_000_000_000), Magnitude::E9);
    assert_eq!(Magnitude::classify(1_000_000_000_000), Magnitude::E12);
    assert_eq!(Magnitude::classify(1_000_000_000_000_000), Magnitude::E15);
    assert_eq!(Magnitude::classify(1_000_000_000_000_000_000), Magnitude::E18);
    assert_eq!(Magnitude::classify(u64::MAX), Magnitude::E18);
}

#[test]
fn scale_of_classified_value_brackets_it() {
    // The scale of a value's bucket is at most the value, and the next
    // bucket's scale is above it, for representative values per decade.
    let samples: [u64; 9] =
        [1, 42, 999, 1_000, 500_000, 7_000_000, 1_234_567_890, 3_000_000_000_000, 500_0000_0000_0000_000];
    for v in samples {
        let m = Magnitude::classify(v);
        let (num, den) = m.scale();
        assert_eq!(den, 1);
        assert!(num <= v as u128);
        if m != Magnitude::E27 {
            assert!((v as u128) < num * 1000);
        }
    }
}

#[test]
fn rescaled_value_classifies_as_unit_bucket() {
    // Re-running the classifier on an already-scaled value lands in the
    // unit bucket: the scaled value sits in the range one up to but
    // excluding one thousand.
    let samples: [u64; 6] = [1, 42, 4_560_000, 999, 123_456, 987_654_321_000];
    for v in samples {
        let (num, _) = Magnitude::classify(v).scale();
        let scaled = (v as u128) / num;
        assert!(1 <= scaled && scaled < 1000);
        assert_eq!(Magnitude::classify(scaled as u64), Magnitude::E0);
    }
}

#[test]
fn scale_values() {
    assert_eq!(Magnitude::E0.scale(), (1, 1));
    assert_eq!(Magnitude::E3.scale(), (1_000, 1));
    assert_eq!(Magnitude::E6.scale(), (1_000_000, 1));
    assert_eq!(Magnitude::Eminus9.scale(), (1, 1_000_000_000));
    assert_eq!(Magnitude::E27.scale(), (1_000_000_000_000_000_000_000_000_000, 1));
}

#[test]
fn exponents_are_ordered() {
    assert_eq!(Magnitude::Eminus9.exponent(), -9);
    assert_eq!(Magnitude::E0.exponent(), 0);
    assert_eq!(Magnitude::E27.exponent(), 27);
    assert!(Magnitude::E3 < Magnitude::E6);
    assert!(Magnitude::Eminus9 < Magnitude::E0);
}

#[test]
fn min_picks_smaller_bucket() {
    assert_eq!(Magnitude::E6.min(Magnitude::E9), Magnitude::E6);
    assert_eq!(Magnitude::E9.min(Magnitude::E6), Magnitude::E6);
    assert_eq!(Magnitude::E3.min(Magnitude::E3), Magnitude::E3);
}

#[test]
fn suffixes() {
    assert_eq!(Magnitude::E0.suffix(), "");
    assert_eq!(Magnitude::E3.suffix(), "E3");
    assert_eq!(Magnitude::Eminus6.suffix(), "E-6");
    assert_eq!(Magnitude::E27.suffix(), "E27");
}
