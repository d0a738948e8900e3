use sim_lib::{ForcesConfig, ParticleColor, NUM_CELLS, NUM_COLORS};

const ALL: [ParticleColor; 4] = [
    ParticleColor::Red,
    ParticleColor::Green,
    ParticleColor::Blue,
    ParticleColor::Yellow,
];

#[test]
fn matrix_len_counts_every_color() {
    assert_eq!(ParticleColor::matrix_len(), 4);
    assert_eq!(NUM_COLORS, 4);
    assert_eq!(NUM_CELLS, 16);
}

#[test]
fn color_index_round_trip() {
    for (i, c) in ALL.iter().enumerate() {
        assert_eq!(c.index(), i);
        assert_eq!(ParticleColor::from_index(i), Some(*c));
    }
    assert_eq!(ParticleColor::from_index(4), None);
    assert_eq!(ParticleColor::from_index(usize::MAX), None);
}

#[test]
fn color_rgb_values() {
    assert_eq!(ParticleColor::Red.rgb(), (255, 0, 0));
    assert_eq!(ParticleColor::Green.rgb(), (0, 255, 0));
    assert_eq!(ParticleColor::Blue.rgb(), (0, 0, 255));
    assert_eq!(ParticleColor::Yellow.rgb(), (252, 186, 3));
}

#[test]
fn empty_table_reads_zero_everywhere() {
    let t = ForcesConfig::filled(0.0f32);
    for a in ALL {
        for b in ALL {
            assert_eq!(t.get(a, b), 0.0);
        }
    }
}

#[test]
fn with_force_sets_one_cell_only() {
    let t = ForcesConfig::filled(0.0f32).with_force(ParticleColor::Red, ParticleColor::Blue, 10.0);
    for a in ALL {
        for b in ALL {
            let expected = if a == ParticleColor::Red && b == ParticleColor::Blue { 10.0 } else { 0.0 };
            assert_eq!(t.get(a, b), expected);
        }
    }
}

#[test]
fn table_is_asymmetric() {
    let t = ForcesConfig::filled(0.0f32)
        .with_force(ParticleColor::Red, ParticleColor::Blue, 10.0)
        .with_force(ParticleColor::Blue, ParticleColor::Red, -0.1);
    assert_eq!(t.get(ParticleColor::Red, ParticleColor::Blue), 10.0);
    assert_eq!(t.get(ParticleColor::Blue, ParticleColor::Red), -0.1);

    let only_one = ForcesConfig::filled(0.0f32).with_force(ParticleColor::Green, ParticleColor::Yellow, 0.4);
    assert_eq!(only_one.get(ParticleColor::Green, ParticleColor::Yellow), 0.4);
    assert_eq!(only_one.get(ParticleColor::Yellow, ParticleColor::Green), 0.0);

    let reversed = ForcesConfig::filled(0.0f32)
        .with_force(ParticleColor::Blue, ParticleColor::Red, -0.1)
        .with_force(ParticleColor::Red, ParticleColor::Blue, 10.0);
    assert_eq!(reversed.to_row_major(), t.to_row_major());
}

#[test]
fn overwriting_a_cell_keeps_the_last_value() {
    let t = ForcesConfig::filled(1.5f32)
        .with_force(ParticleColor::Yellow, ParticleColor::Yellow, 2.0)
        .with_force(ParticleColor::Yellow, ParticleColor::Yellow, -3.0);
    assert_eq!(t.get(ParticleColor::Yellow, ParticleColor::Yellow), -3.0);
    assert_eq!(t.get(ParticleColor::Red, ParticleColor::Red), 1.5);
}

#[test]
fn row_major_layout() {
    let mut cells = [0.0f32; 16];
    for (i, c) in cells.iter_mut().enumerate() {
        *c = i as f32;
    }
    let t = ForcesConfig::from_row_major(cells);
    for a in ALL {
        for b in ALL {
            assert_eq!(t.get(a, b), (a.index() * 4 + b.index()) as f32);
        }
    }
    assert_eq!(t.get(ParticleColor::Green, ParticleColor::Blue), 6.0);
    assert_eq!(t.to_row_major(), cells);
}

#[test]
fn table_copies_are_independent() {
    let t = ForcesConfig::filled(0.0f32);
    let copy = t;
    let changed = copy.with_force(ParticleColor::Red, ParticleColor::Red, 0.4);
    assert_eq!(t.get(ParticleColor::Red, ParticleColor::Red), 0.0);
    assert_eq!(changed.get(ParticleColor::Red, ParticleColor::Red), 0.4);
}
