//! Permutation operator and conversion tests.

use memeroute::dsn::{
    ConvertError, Converter, Dec, DsnDimension, DsnDimensionUnit, DsnNet, DsnPadstack, DsnPcb,
    DsnPinRef, DsnPt, DsnShape,
};
use memeroute::perm::{
    crossover_cycle, crossover_order, crossover_pmx, kendall_tau, mutate_insert, mutate_inversion,
    mutate_swap,
};

fn is_perm_of(a: &[u64], b: &[u64]) -> bool {
    let mut x = a.to_vec();
    let mut y = b.to_vec();
    x.sort_unstable();
    y.sort_unstable();
    x == y
}

#[test]
fn crossovers_preserve_elements() {
    let base: Vec<u64> = vec![1, 2, 3, 4, 5, 6];
    let other: Vec<u64> = vec![6, 4, 2, 5, 1, 3];
    let mut a = base.clone();
    let mut b = other.clone();
    crossover_pmx(&mut a, &mut b, 1, 3);
    assert!(is_perm_of(&a, &base));
    assert!(is_perm_of(&b, &base));
    let mut c = base.clone();
    crossover_order(&mut c, &other, 2, 4);
    assert!(is_perm_of(&c, &base));
    // Order crossover keeps the chosen range.
    assert_eq!(&c[2..=4], &base[2..=4]);
    let mut d = base.clone();
    let mut e = other.clone();
    crossover_cycle(&mut d, &mut e, 0);
    assert!(is_perm_of(&d, &base));
    assert!(is_perm_of(&e, &base));
}

#[test]
fn mutations_preserve_elements() {
    let base: Vec<u64> = vec![10, 20, 30, 40, 50];
    let mut a = base.clone();
    mutate_swap(&mut a, 0, 4);
    assert_eq!(a, vec![50, 20, 30, 40, 10]);
    let mut b = base.clone();
    mutate_insert(&mut b, 0, 3);
    assert_eq!(b, vec![20, 30, 40, 10, 50]);
    let mut c = base.clone();
    mutate_inversion(&mut c, 1, 3);
    assert_eq!(c, vec![10, 40, 30, 20, 50]);
}

#[test]
fn kendall_tau_counts_discordant_pairs() {
    assert_eq!(kendall_tau(&vec![1], &vec![1]), Some(0));
    assert_eq!(kendall_tau(&vec![1], &vec![2]), Some(0));
    assert_eq!(kendall_tau(&vec![1, 2], &vec![1, 2]), Some(0));
    assert_eq!(kendall_tau(&vec![1, 2], &vec![2, 1]), Some(1));
    assert_eq!(kendall_tau(&vec![1, 2, 3, 4, 5], &vec![3, 4, 1, 2, 5]), Some(4));
    assert_eq!(kendall_tau(&vec![1, 2], &vec![1]), None);
}

fn dim(unit: DsnDimensionUnit, amount: u64) -> DsnDimension {
    DsnDimension { dimension: unit, amount }
}

fn dsn_board() -> DsnPcb {
    DsnPcb {
        resolution: dim(DsnDimensionUnit::Um, 10),
        unit: dim(DsnDimensionUnit::Um, 10),
        layers: vec![0],
        boundaries: vec![DsnShape::Rect {
            layer: 0,
            x: Dec::new(0, 0),
            y: Dec::new(0, 0),
            w: Dec::new(100, 0),
            h: Dec::new(100, 0),
        }],
        keepouts: vec![],
        padstacks: vec![DsnPadstack {
            padstack_id: 5,
            shapes: vec![DsnShape::Circle {
                layer: 0,
                diameter: Dec::new(3, 0),
                p: DsnPt { x: Dec::new(0, 0), y: Dec::new(0, 0) },
            }],
            attach: false,
        }],
        images: vec![],
        components: vec![],
        vias: vec![5],
        nets: vec![DsnNet {
            net_id: 1,
            pins: vec![DsnPinRef { component_id: 1, pin_id: 1 }],
        }],
    }
}

#[test]
fn convert_scales_exactly() {
    // At 10 units per micrometre, one micrometre is 10,000 internal units:
    // mm-per-um (1000) times the resolution divisor (10).
    let c = Converter::new(dsn_board()).unwrap();
    let d = c.coord(Dec::new(25, 1)).unwrap();
    // 2.5 um -> 1000 * 10 * 2.5 = 25000 units.
    assert_eq!(c.to_i64(d).unwrap(), 25_000);
    // Truncation toward zero on a fractional value.
    let f = c.coord(Dec::new(33, 5)).unwrap();
    // 0.00033 um -> 3.3 units -> 3.
    assert_eq!(c.to_i64(f).unwrap(), 3);
    let neg = c.coord(Dec::new(-33, 5)).unwrap();
    assert_eq!(c.to_i64(neg).unwrap(), -3);
    let pcb = c.convert().unwrap();
    assert_eq!(pcb.layers.len(), 1);
    assert_eq!(pcb.boundaries.len(), 1);
    assert_eq!(pcb.via_padstacks.len(), 1);
    // The circle's radius is half the diameter: 1.5 um -> 15000 units.
    match &pcb.via_padstacks[0].shapes[0].shape {
        memeroute::shape::Shape::Circle(ci) => assert_eq!(ci.r, 15_000),
        _ => panic!("expected a circle pad"),
    }
}

#[test]
fn convert_rejects_bad_descriptions() {
    // Mismatched unit sections.
    let mut d = dsn_board();
    d.unit = dim(DsnDimensionUnit::Mm, 10);
    assert!(matches!(Converter::new(d).unwrap().convert(), Err(ConvertError::UnitMismatch)));
    // Duplicate padstack ids.
    let mut d = dsn_board();
    let ps = d.padstacks[0].clone();
    d.padstacks.push(ps);
    assert!(matches!(Converter::new(d).unwrap().convert(), Err(ConvertError::DuplicatePadstack)));
    // A via referencing an unknown padstack.
    let mut d = dsn_board();
    d.vias = vec![77];
    assert!(matches!(Converter::new(d).unwrap().convert(), Err(ConvertError::UnknownReference)));
}
