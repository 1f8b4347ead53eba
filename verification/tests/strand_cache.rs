use strand_software_rasterizer::strand_cache::{
    ByteReader,
    is_binary_cache, parse_binary_cache, validate_cache, JsonStrandCacheFile, StrandCacheAssetLoader,
    StrandCacheError, StrandCacheFile, StrandCacheStrand, BINARY_VERSION,
};

const MAGIC: &[u8; 8] = b"SSRSTRD\0";

fn push_u32(bytes: &mut Vec<u8>, value: u32) {
    bytes.extend_from_slice(&value.to_le_bytes());
}

fn push_u64(bytes: &mut Vec<u8>, value: u64) {
    bytes.extend_from_slice(&value.to_le_bytes());
}

fn push_f32(bytes: &mut Vec<u8>, value: f32) {
    bytes.extend_from_slice(&value.to_le_bytes());
}

fn one_strand_cache() -> Vec<u8> {
    let mut bytes = Vec::new();
    bytes.extend_from_slice(MAGIC);
    push_u32(&mut bytes, BINARY_VERSION);
    push_f32(&mut bytes, 1.0);
    push_u64(&mut bytes, 3);
    push_u64(&mut bytes, 1);
    push_u64(&mut bytes, 3);

    for vertex in [[0.0, 0.0, 0.0], [1.0, 0.0, 0.0], [1.0, 1.0, 0.0]] {
        for component in vertex {
            push_f32(&mut bytes, component);
        }
    }

    push_u32(&mut bytes, 3);
    push_u32(&mut bytes, 0);
    for index in [0, 1, 2] {
        push_u32(&mut bytes, index);
    }
    bytes
}

#[test]
fn parses_binary_cache() {
    let mut bytes = Vec::new();
    bytes.extend_from_slice(MAGIC);
    push_u32(&mut bytes, BINARY_VERSION);
    push_f32(&mut bytes, 1.0);
    push_u64(&mut bytes, 3);
    push_u64(&mut bytes, 1);
    push_u64(&mut bytes, 3);

    for vertex in [[0.0, 0.0, 0.0], [1.0, 0.0, 0.0], [1.0, 1.0, 0.0]] {
        for component in vertex {
            push_f32(&mut bytes, component);
        }
    }

    push_u32(&mut bytes, 3);
    push_u32(&mut bytes, 0);
    for index in [0, 1, 2] {
        push_u32(&mut bytes, index);
    }

    let cache = parse_binary_cache(&bytes).unwrap();
    validate_cache(&cache).unwrap();
    assert_eq!(cache.vertex_bits.len(), 3);
    assert_eq!(cache.strands.len(), 1);
    assert_eq!(cache.indices, vec![0, 1, 2]);
}

#[test]
fn binary_cache_keeps_float_bits_and_records() {
    let cache = parse_binary_cache(&one_strand_cache()).unwrap();
    assert_eq!(cache.version, BINARY_VERSION);
    assert_eq!(cache.source, None);
    assert_eq!(f32::from_bits(cache.scale_bits), 1.0);
    assert_eq!(cache.vertex_bits[1], [1.0f32.to_bits(), 0.0f32.to_bits(), 0.0f32.to_bits()]);
    assert_eq!(cache.vertex_bits[2][1], 1.0f32.to_bits());
    assert_eq!(cache.strands[0], StrandCacheStrand { count: 3, offset: 0 });
}

#[test]
fn binary_magic_is_recognised() {
    assert!(is_binary_cache(&one_strand_cache()));
    assert!(is_binary_cache(MAGIC));
    assert!(!is_binary_cache(b"SSRSTRD"));
    assert!(!is_binary_cache(b"{\"version\": 1}"));
}

#[test]
fn rejects_wrong_magic() {
    let mut bytes = one_strand_cache();
    bytes[0] = b'X';
    assert_eq!(parse_binary_cache(&bytes).unwrap_err(), StrandCacheError::InvalidMagic);
}

#[test]
fn rejects_short_input() {
    assert_eq!(parse_binary_cache(b"SSR").unwrap_err(), StrandCacheError::UnexpectedEnd);
    assert_eq!(parse_binary_cache(MAGIC).unwrap_err(), StrandCacheError::UnexpectedEnd);
    let bytes = one_strand_cache();
    assert_eq!(
        parse_binary_cache(&bytes[..bytes.len() - 1]).unwrap_err(),
        StrandCacheError::UnexpectedEnd
    );
}

#[test]
fn rejects_other_versions() {
    let mut bytes = one_strand_cache();
    bytes[8] = 2;
    assert_eq!(
        parse_binary_cache(&bytes).unwrap_err(),
        StrandCacheError::UnsupportedVersion { version: 2 }
    );
}

#[test]
fn rejects_trailing_bytes() {
    let mut bytes = one_strand_cache();
    bytes.push(0);
    bytes.push(0);
    assert_eq!(
        parse_binary_cache(&bytes).unwrap_err(),
        StrandCacheError::TrailingBytes { remaining: 2 }
    );
}

#[test]
fn rejects_counts_beyond_the_payload() {
    let mut bytes = Vec::new();
    bytes.extend_from_slice(MAGIC);
    push_u32(&mut bytes, BINARY_VERSION);
    push_f32(&mut bytes, 1.0);
    push_u64(&mut bytes, u64::MAX);
    push_u64(&mut bytes, 0);
    push_u64(&mut bytes, 0);
    assert_eq!(parse_binary_cache(&bytes).unwrap_err(), StrandCacheError::UnexpectedEnd);
}

fn cache(strands: Vec<StrandCacheStrand>, indices: Vec<u32>, vertices: usize) -> StrandCacheFile {
    StrandCacheFile {
        version: BINARY_VERSION,
        source: None,
        scale_bits: 1.0f32.to_bits(),
        vertex_bits: vec![[0, 0, 0]; vertices],
        strands,
        indices,
    }
}

#[test]
fn validation_reports_each_fault() {
    let mut c = cache(vec![StrandCacheStrand { count: 2, offset: 0 }], vec![0, 1], 2);
    assert_eq!(validate_cache(&c), Ok(()));

    c.version = 3;
    assert_eq!(validate_cache(&c), Err(StrandCacheError::UnsupportedVersion { version: 3 }));

    let c = cache(vec![StrandCacheStrand { count: 1, offset: 0 }], vec![0, 1], 2);
    assert_eq!(validate_cache(&c), Err(StrandCacheError::TooFewVertices { strand: 0 }));

    let c = cache(
        vec![StrandCacheStrand { count: 2, offset: 0 }, StrandCacheStrand { count: 2, offset: u32::MAX }],
        vec![0, 1],
        2,
    );
    assert_eq!(validate_cache(&c), Err(StrandCacheError::RangeOverflow { strand: 1 }));

    let c = cache(vec![StrandCacheStrand { count: 3, offset: 1 }], vec![0, 1, 1], 2);
    assert_eq!(
        validate_cache(&c),
        Err(StrandCacheError::RangeOutOfBounds { strand: 0, offset: 1, end: 4, index_count: 3 })
    );

    let c = cache(vec![StrandCacheStrand { count: 3, offset: 0 }], vec![0, 1, 5], 2);
    assert_eq!(
        validate_cache(&c),
        Err(StrandCacheError::VertexOutOfBounds { strand: 0, vertex: 5, vertex_count: 2 })
    );
}

#[test]
fn json_cache_is_laid_out_end_to_end() {
    let json = JsonStrandCacheFile {
        version: 1,
        source: Some("groom".to_string()),
        scale_bits: 2.0f32.to_bits(),
        vertex_bits: vec![[0, 0, 0]; 4],
        strands: vec![vec![0, 1, 2], vec![3, 2]],
    };
    let cache = StrandCacheFile::from_json(json);
    assert_eq!(cache.indices, vec![0, 1, 2, 3, 2]);
    assert_eq!(
        cache.strands,
        vec![StrandCacheStrand { count: 3, offset: 0 }, StrandCacheStrand { count: 2, offset: 3 }]
    );
    assert_eq!(cache.source.as_deref(), Some("groom"));
    assert_eq!(f32::from_bits(cache.scale_bits), 2.0);
    // A JSON cache whose strands each name two or more existing vertices validates.
    assert_eq!(validate_cache(&cache), Ok(()));
}

#[test]
fn loader_extensions() {
    assert_eq!(StrandCacheAssetLoader.extensions(), vec!["strands", "strands.json", "json"]);
}

#[test]
fn byte_reader_advances_only_on_successful_reads() {
    let bytes: Vec<u8> = (1u8..=14).collect();
    let mut r = ByteReader::new(&bytes);
    assert_eq!(r.remaining(), 14);
    assert_eq!(r.read_u32(), Ok(0x0403_0201));
    assert_eq!(r.offset, 4);
    assert_eq!(r.read_u64(), Ok(0x0c0b_0a09_0807_0605));
    assert_eq!(r.remaining(), 2);
    // Too few bytes left: an error, and the position stays.
    assert_eq!(r.read_u32(), Err(StrandCacheError::UnexpectedEnd));
    assert_eq!(r.offset, 12);
    assert_eq!(r.read_exact(2), Ok(&bytes[12..14]));
    assert_eq!(r.remaining(), 0);
    assert_eq!(r.read_exact(1), Err(StrandCacheError::UnexpectedEnd));
    assert_eq!(r.offset, 14);
    assert_eq!(r.read_exact(usize::MAX), Err(StrandCacheError::OffsetOverflow));
    assert_eq!(r.offset, 14);
}
