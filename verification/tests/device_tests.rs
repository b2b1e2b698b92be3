use nextgen::device::words_to_bytes;
use nextgen::gpu_table::{
    material_table_bytes, material_table_words, ore_table_bytes, ore_table_words, GpuMaterialRule,
    GpuOreMap, MATERIAL_RULE_STRIDE, MATERIAL_RULE_WORDS, ORE_MAP_STRIDE, ORE_MAP_WORDS,
};
use nextgen::scalar::Scalar;

fn s(x: f32) -> Scalar {
    Scalar::from_bits(x.to_bits())
}

fn rule(id: u32) -> GpuMaterialRule {
    GpuMaterialRule {
        id,
        r: 255,
        g: 128,
        b: 1,
        a: 0,
        min_height: s(0.25),
        max_height: s(0.75),
        latitude_min: s(-90.0),
        latitude_max: s(90.0),
        slope_min: s(0.0),
        slope_max: s(45.0),
    }
}

fn native(words: &[u32]) -> Vec<u8> {
    words.iter().flat_map(|w| w.to_ne_bytes()).collect()
}

#[test]
fn words_become_their_native_bytes() {
    assert_eq!(words_to_bytes(&vec![]), Vec::<u8>::new());
    assert_eq!(words_to_bytes(&vec![0x0102_0304]), 0x0102_0304u32.to_ne_bytes().to_vec());
    let words = vec![1, 0xffff_ffff, 0x8000_0000, 0x0a0b_0c0d];
    assert_eq!(words_to_bytes(&words), native(&words));
}

#[test]
fn material_record_has_sixteen_words_in_the_device_layout() {
    let words = material_table_words(&vec![rule(7)]);
    assert_eq!(words.len(), MATERIAL_RULE_WORDS);
    assert_eq!(
        words,
        vec![
            7,
            0,
            0,
            0,
            1.0f32.to_bits(),
            (128.0f32 / 255.0).to_bits(),
            (1.0f32 / 255.0).to_bits(),
            0.0f32.to_bits(),
            0.25f32.to_bits(),
            0.75f32.to_bits(),
            (-90.0f32).to_bits(),
            90.0f32.to_bits(),
            0.0f32.to_bits(),
            45.0f32.to_bits(),
            0,
            0,
        ]
    );
}

#[test]
fn ore_record_has_eight_words_in_the_device_layout() {
    let ore = GpuOreMap { id: 200, r: 255, g: 216, b: 0, a: 255 };
    let words = ore_table_words(&vec![ore]);
    assert_eq!(words.len(), ORE_MAP_WORDS);
    assert_eq!(
        words,
        vec![200, 0, 0, 0, 1.0f32.to_bits(), (216.0f32 / 255.0).to_bits(), 0.0f32.to_bits(), 1.0f32.to_bits()]
    );
}

#[test]
fn records_follow_one_another_at_a_fixed_stride() {
    let table = vec![rule(1), rule(2), rule(3)];
    let words = material_table_words(&table);
    assert_eq!(words.len(), 3 * MATERIAL_RULE_WORDS);
    for (i, record) in table.iter().enumerate() {
        let alone = material_table_words(&vec![*record]);
        assert_eq!(&words[16 * i..16 * i + 16], alone.as_slice());
        assert_eq!(words[16 * i], record.id);
    }
    let bytes = material_table_bytes(&table);
    assert_eq!(bytes.len(), 3 * MATERIAL_RULE_STRIDE);
    assert_eq!(bytes, native(&words));
    assert_eq!(MATERIAL_RULE_STRIDE % 16, 0);
    assert_eq!(MATERIAL_RULE_STRIDE, 4 * MATERIAL_RULE_WORDS);
}

#[test]
fn ore_records_follow_one_another_at_a_fixed_stride() {
    let table = vec![
        GpuOreMap { id: 200, r: 1, g: 2, b: 3, a: 255 },
        GpuOreMap { id: 201, r: 4, g: 5, b: 6, a: 255 },
    ];
    let words = ore_table_words(&table);
    assert_eq!(words.len(), 2 * ORE_MAP_WORDS);
    assert_eq!(words[0], 200);
    assert_eq!(words[8], 201);
    assert_eq!(words[12], (4.0f32 / 255.0).to_bits());
    let bytes = ore_table_bytes(&table);
    assert_eq!(bytes.len(), 2 * ORE_MAP_STRIDE);
    assert_eq!(bytes, native(&words));
    assert_eq!(ORE_MAP_STRIDE, 4 * ORE_MAP_WORDS);
}

#[test]
fn empty_tables_have_no_bytes() {
    assert!(material_table_bytes(&vec![]).is_empty());
    assert!(ore_table_bytes(&vec![]).is_empty());
}
