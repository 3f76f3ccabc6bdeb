use srxformer::qreno::field::{charge_mantissas, is_damped, perturbation_mantissas, QrenoField};
use srxformer::qreno::hamiltonian::{
    is_delimiter_byte, partition_into_clusters, BondParams, Cluster, MAX_CLUSTER_LEN,
};
use srxformer::qreno::measure::{weight_mantissas, OperatorMeasure};
use srxformer::qreno::model::{QrenoAdamW, QrenoConfig, QrenoGrad, QrenoWeights};
use srxformer::qreno::segmenter::{
    is_ascii_space, physical_segment, BondSignal, SshLatticeParams, SshLatticeWorkspace,
};
use srxformer::qreno::solver::GroundState;

fn field_of(field_dim: usize) -> QrenoField<f32> {
    let mut field = QrenoField::new(field_dim, 0.0f32);
    for b in 0..256usize {
        let angle = (2.0 * std::f32::consts::PI * (b as f32)) / 256.0;
        field.omega[b] = angle;
        field.epsilon[b] = -0.5 + 0.1 * angle.sin();
        let raw: Vec<f32> = charge_mantissas(b as u8, field_dim)
            .iter()
            .map(|m| *m as f32 / 16777216.0 - 0.5)
            .collect();
        let norm = raw.iter().map(|x| x * x).sum::<f32>().sqrt().max(1e-7);
        let scale = if is_damped(b as u8) { 0.12 } else { 1.0 };
        let charge: Vec<f32> = raw.iter().map(|x| (x / norm) * scale).collect();
        field.set_charge(b as u8, &charge);
    }
    field
}

fn bond_of(bond: &BondParams<f32>, c1: &[f32], c2: &[f32]) -> f32 {
    let mut z = bond.b_bond;
    for k in 0..bond.field_dim {
        z += bond.w_bond[k] * c1[k] * c2[k];
    }
    1.0 / (1.0 + (-z).exp())
}

fn clusters_of(text: &[u8], max_cluster_len: usize) -> Vec<Cluster> {
    let field = field_of(8);
    let bond = BondParams::new(8, 1.2f32, 1.5, 0.5);
    let bonds: Vec<u32> = text
        .windows(2)
        .map(|pair| bond_of(&bond, field.charge(pair[0]), field.charge(pair[1])).to_bits())
        .collect();
    partition_into_clusters(text, &bonds, bond.threshold.to_bits(), max_cluster_len)
}

#[test]
fn test_field_initialization_and_charges() {
    let field = field_of(8);
    assert_eq!(field.field_dim, 8);
    assert_eq!(field.charges.len(), 256 * 8);

    for b in 0..256 {
        let c = field.charge(b as u8);
        assert_eq!(c.len(), 8);
        let norm_sq: f32 = c.iter().map(|&x| x * x).sum();
        let expected_norm = if b >= 0xC0 { 0.12 } else { 1.0 };
        assert!((norm_sq.sqrt() - expected_norm).abs() < 1e-5);
    }

    for b in 0..256 {
        let w = field.omega(b as u8);
        assert!(w >= 0.0 && w < 2.0 * std::f32::consts::PI);
    }
}

#[test]
fn test_cluster_partitioning_whitespace() {
    let text = "hello world";
    let clusters = clusters_of(text.as_bytes(), 16);

    assert_eq!(clusters.len(), 3);
    assert_eq!(
        &text.as_bytes()[clusters[0].start..clusters[0].start + clusters[0].len],
        b"hello"
    );
    assert_eq!(clusters[0].is_delimiter, false);

    assert_eq!(&text.as_bytes()[clusters[1].start..clusters[1].start + clusters[1].len], b" ");
    assert_eq!(clusters[1].is_delimiter, true);

    assert_eq!(
        &text.as_bytes()[clusters[2].start..clusters[2].start + clusters[2].len],
        b"world"
    );
    assert_eq!(clusters[2].is_delimiter, false);
}

#[test]
fn test_cluster_max_len_cap() {
    let text = "abcdefghijklmnopqrstuvwxyz";
    let clusters = clusters_of(text.as_bytes(), 16);

    assert_eq!(clusters.len(), 2);
    assert_eq!(clusters[0].len, 16);
    assert_eq!(clusters[1].len, 10);
}

#[test]
fn test_tokenizer_encode_and_param_count() {
    let config = QrenoConfig::default();
    let weights = QrenoWeights {
        field: QrenoField::new(config.field_dim, 0.0f32),
        bond: BondParams::new(config.field_dim, 1.2f32, 1.5, 0.5),
        measure: OperatorMeasure::new(config.field_dim, config.d_model, 0.0f32, 1e-5),
    };

    let expected_params = (256 * 8 + 256 + 256) + (8 + 1) + (16 * 8);
    assert_eq!(weights.param_count(&config), expected_params);

    let clusters = clusters_of("hello world".as_bytes(), config.max_cluster_len);
    assert_eq!(clusters.len(), 3);
}

fn cluster(start: usize, len: usize, is_delimiter: bool) -> Cluster {
    Cluster { start, len, is_delimiter }
}

#[test]
fn clusters_end_at_broken_bonds() {
    let weak = 0.25f32.to_bits();
    let firm = 0.75f32.to_bits();
    let half = 0.5f32.to_bits();
    assert_eq!(
        partition_into_clusters(b"abcd", &[firm, weak, firm], half, 16),
        vec![cluster(0, 2, false), cluster(2, 2, false)]
    );
    assert_eq!(
        partition_into_clusters(b"ab", &[half], half, 16),
        vec![cluster(0, 2, false)]
    );
    assert_eq!(
        partition_into_clusters(b"ab", &[f32::NAN.to_bits()], half, 16),
        vec![cluster(0, 2, false)]
    );
}

#[test]
fn delimiters_group_with_their_like() {
    let bonds = [0u32; 16];
    assert_eq!(
        partition_into_clusters(b"  ,,a", &bonds, 0, 16),
        vec![cluster(0, 2, true), cluster(2, 2, true), cluster(4, 1, false)]
    );
    assert_eq!(
        partition_into_clusters(b"...", &bonds, 0, 2),
        vec![cluster(0, 2, true), cluster(2, 1, true)]
    );
    assert_eq!(partition_into_clusters(b"", &[], 0, 16), vec![]);
}

#[test]
fn limits_of_cluster_lengths() {
    let bonds = [0x3f800000u32; 64];
    let bytes = [b'a'; 40];
    let lens = |limit: usize| -> Vec<usize> {
        partition_into_clusters(&bytes, &bonds, 0, limit).iter().map(|c| c.len).collect()
    };
    assert_eq!(lens(100), vec![16, 16, 8]);
    assert_eq!(lens(0), vec![1; 40]);
    assert_eq!(MAX_CLUSTER_LEN, 16);
}

#[test]
fn delimiter_bytes() {
    let expected = b" \t\n\r,.!?;:()[]{}\"'/\\\0";
    for b in 0..=255u8 {
        assert_eq!(is_delimiter_byte(b), expected.contains(&b));
        assert_eq!(is_ascii_space(b), b.is_ascii_whitespace());
    }
}

fn lattice() -> SshLatticeParams<f32> {
    SshLatticeParams {
        field_dim: 8,
        d_e: 2.5,
        a: 1.8,
        r_0: 0.25,
        alpha_local: 0.65,
        beta_kl: 0.15,
        max_cluster_len: 16,
        min_cluster_len: 1,
    }
}

fn morse_bond_energy(r: f32, d_e: f32, a: f32, r_0: f32) -> f32 {
    let exp_term = (-a * (r - r_0)).exp();
    d_e - d_e * (1.0 - exp_term) * (1.0 - exp_term)
}

fn divergence(c1: &[f32], c2: &[f32]) -> f32 {
    let norm1 = c1.iter().map(|x| x * x).sum::<f32>().max(1e-6);
    let norm2 = c2.iter().map(|x| x * x).sum::<f32>().max(1e-6);
    let mut kl = 0.0f32;
    for k in 0..c1.len() {
        let p = (c1[k] * c1[k] / norm1).max(1e-6);
        let q = (c2[k] * c2[k] / norm2).max(1e-6);
        kl += p * (p / q).ln();
    }
    kl.max(0.0)
}

fn segments_of(bytes: &[u8]) -> Vec<Cluster> {
    let field = field_of(8);
    let params = lattice();
    let mut ws = SshLatticeWorkspace::<f32>::new();
    let mut sum = 0.0f32;
    for pair in bytes.windows(2) {
        let spaced = |b: u8| b.is_ascii_whitespace() || b == 0;
        let (c1, c2) = (field.charge(pair[0]), field.charge(pair[1]));
        let r = c1.iter().zip(c2).map(|(x, y)| (x - y) * (x - y)).sum::<f32>().sqrt();
        let eff_r = if spaced(pair[0]) || spaced(pair[1]) { r + 2.0 * params.r_0 } else { r };
        let energy = morse_bond_energy(eff_r, params.d_e, params.a, params.r_0);
        ws.e_bonds.push(energy);
        ws.t_bonds.push(1.0 / (1.0 + (-energy).exp()));
        sum += energy;
    }
    let mut local = sum / ws.e_bonds.len() as f32;
    let mut signals = Vec::new();
    for i in 0..ws.e_bonds.len() {
        local = 0.8 * local + 0.2 * ws.e_bonds[i];
        let kl = divergence(field.charge(bytes[i]), field.charge(bytes[i + 1]));
        let barrier = params.alpha_local * local - params.beta_kl * kl;
        let delta_t = if i == 0 { 0.0 } else { ws.t_bonds[i] - ws.t_bonds[i - 1] };
        signals.push(BondSignal {
            delta_t: delta_t.to_bits(),
            energy: ws.e_bonds[i].to_bits(),
            barrier: barrier.to_bits(),
            floor: (barrier - 0.5).to_bits(),
        });
    }
    physical_segment(bytes, &signals, params.max_cluster_len, params.min_cluster_len)
}

#[test]
fn test_ssh_physical_segmentation_words() {
    let text = "хочешь сей а хочешь куй";
    let clusters = segments_of(text.as_bytes());

    assert!(clusters.len() >= 5, "Should segment into words and spaces: {:?}", clusters);
    assert!(clusters[0].len > 1, "First cluster must not be fragmented into 1 byte");
    let last = &clusters[clusters.len() - 1];
    assert!(last.len > 1, "Last cluster must not be fragmented into 1 byte");
}

#[test]
fn test_boundary_soliton_suppression() {
    let text = "математика";
    let clusters = segments_of(text.as_bytes());

    assert!(clusters.len() <= 2, "Word 'математика' should be cohesive, got {:?}", clusters);
    assert_eq!(clusters[0].start, 0);
}

fn calm() -> BondSignal {
    let bits = |x: f32| x.to_bits();
    BondSignal { delta_t: bits(0.0), energy: bits(1.0), barrier: bits(0.5), floor: bits(0.0) }
}

#[test]
fn bonds_give_way() {
    let bits = |x: f32| x.to_bits();
    let wall = BondSignal { delta_t: bits(-0.2), barrier: bits(1.5), ..calm() };
    let shallow = BondSignal { delta_t: bits(-0.1), barrier: bits(1.5), ..calm() };
    let snapped = BondSignal { floor: bits(1.5), ..calm() };
    let cut = |at: usize, signal: BondSignal| -> Vec<Cluster> {
        let mut signals = vec![calm(); 5];
        signals[at] = signal;
        physical_segment(b"abcdef", &signals, 16, 1)
    };
    let whole = vec![cluster(0, 6, false)];
    let parted = vec![cluster(0, 3, false), cluster(3, 3, false)];
    assert_eq!(cut(2, calm()), whole);
    assert_eq!(cut(2, wall), parted);
    assert_eq!(cut(2, shallow), whole);
    assert_eq!(cut(2, snapped), parted);
    assert_eq!(cut(0, snapped), whole);
    assert_eq!(cut(4, snapped), whole);
}

#[test]
fn lengths_of_segments() {
    let signals = vec![calm(); 9];
    let lens = |max: usize| -> Vec<usize> {
        physical_segment(b"abcdefghij", &signals, max, 1).iter().map(|c| c.len).collect()
    };
    assert_eq!(lens(4), vec![4, 4, 2]);
    assert_eq!(lens(1), vec![1; 10]);
    assert_eq!(lens(16), vec![10]);
    assert_eq!(physical_segment(b"", &[], 16, 1), vec![]);
    assert_eq!(physical_segment(b"a", &[], 16, 1), vec![cluster(0, 1, false)]);
    assert_eq!(physical_segment(b" ", &[], 16, 1), vec![cluster(0, 1, true)]);
}

#[test]
fn white_space_is_cut_off() {
    let signals = vec![calm(); 7];
    assert_eq!(
        physical_segment(b"a  bc d", &signals, 16, 1),
        vec![
            cluster(0, 1, false),
            cluster(1, 2, true),
            cluster(3, 2, false),
            cluster(5, 1, true),
            cluster(6, 1, false)
        ]
    );
    assert_eq!(
        physical_segment(b"a  bc d", &signals, 16, 2),
        vec![cluster(0, 3, false), cluster(3, 2, false), cluster(5, 2, false)]
    );
}

#[test]
fn scratch_memory_is_emptied() {
    let mut ws = SshLatticeWorkspace::<u32>::with_capacity(8);
    ws.t_bonds.push(1);
    ws.e_bonds.push(2);
    ws.cut_indices.push(3);
    ws.clear();
    assert!(ws.t_bonds.is_empty() && ws.e_bonds.is_empty() && ws.cut_indices.is_empty());
}

#[test]
fn draws_behind_the_weights() {
    assert_eq!(charge_mantissas(65, 3), vec![15195892, 4547260, 9478272]);
    assert_eq!(&weight_mantissas(1, 3), &[7481350, 14205750, 2489958]);
    let drawn = perturbation_mantissas(8, 7);
    assert_eq!(drawn.len(), 2560);
    assert_eq!(&drawn[..3], &[14424951, 1372457, 12214225]);
    assert!(!is_damped(0xbf));
    assert!(is_damped(0xc0));
}

#[test]
fn charges_are_kept_apart() {
    let mut field = QrenoField::new(2, 0u32);
    field.set_charge(7, &[1, 2]);
    field.set_charge(255, &[3, 4]);
    assert_eq!(field.charge(7), &[1, 2]);
    assert_eq!(field.charge(255), &[3, 4]);
    assert_eq!(field.charge(8), &[0, 0]);
    assert_eq!(field.epsilon(9), 0);
    assert_eq!(field.param_count(), 1024);
}

#[test]
fn gradients_of_the_tokenizer() {
    let config = QrenoConfig::default();
    let mut grad = QrenoGrad::new(&config, 0.0f32);
    grad.b_bond_grad = 4.0;
    grad.charges_grad[9] = 1.0;
    grad.zero(0.0);
    assert_eq!(grad.b_bond_grad, 0.0);
    assert!(grad.charges_grad.iter().all(|g| *g == 0.0));
    let optimizer = QrenoAdamW::new(&config, 0.0f32, 0.002, 0.9, 0.999, 1e-8, 0.01);
    assert_eq!(optimizer.step, 0);
    assert_eq!(optimizer.m.w_o_grad.len(), 128);
}

#[test]
fn amplitudes_that_count() {
    let state = GroundState { energy: 0.0f32, psi: vec![1.0, 2.0, 0.0], len: 2 };
    assert_eq!(state.psi_slice(), &[1.0, 2.0]);
}

#[test]
fn the_threshold_of_the_configuration_ends_clusters() {
    let mut config = QrenoConfig::default();
    let bonds = [0.9f32.to_bits(), 0.6f32.to_bits(), 0.9f32.to_bits()];
    let lens = |config: &QrenoConfig| -> Vec<usize> {
        config.tokenize_to_clusters(b"abcd", &bonds).iter().map(|c| c.len).collect()
    };
    assert_eq!(lens(&config), vec![4]);
    config.bond_threshold = 0.7f32.to_bits();
    assert_eq!(lens(&config), vec![2, 2]);
    config.bond_threshold = 0.95f32.to_bits();
    assert_eq!(lens(&config), vec![1, 1, 1, 1]);
    config.bond_threshold = 0;
    config.max_cluster_len = 3;
    assert_eq!(lens(&config), vec![3, 1]);
}
