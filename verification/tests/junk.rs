use rmms_core::mmp::events::{build_tree, ENDLESS};
use rmms_core::mmp::xml::XMLError;
use rmms_core::mmp::xpt::Pattern;
use rmms_core::mmp::zlib::decompress;
use rmms_core::mmp::MMP;

fn next(state: &mut u64) -> u64 {
    *state = state.wrapping_mul(6364136223846793005).wrapping_add(1442695040888963407);
    *state >> 33
}

fn junk(state: &mut u64, alphabet: &[u8], max: usize) -> Vec<u8> {
    let n = (next(state) as usize) % (max + 1);
    let mut out = Vec::new();
    for _ in 0..n {
        out.push(alphabet[(next(state) as usize) % alphabet.len()]);
    }
    out
}

#[test]
fn tokenizer_comes_to_an_end_on_any_markup() {
    let alphabet = b"<>/!?-[]=\"' \nabDOCTYPE&;x\xff";
    let mut state = 7u64;
    for _ in 0..20000 {
        let doc = junk(&mut state, alphabet, 24);
        match build_tree(&doc) {
            Err(XMLError::Invalid(m)) => assert_ne!(m, ENDLESS),
            _ => {}
        }
    }
}

#[test]
fn short_documents_are_all_read_to_an_end() {
    let alphabet = b"<>/!-a \"=";
    let mut doc = Vec::new();
    for a in alphabet {
        for b in alphabet {
            for c in alphabet {
                for d in alphabet {
                    doc.clear();
                    doc.extend([*a, *b, *c, *d]);
                    match build_tree(&doc) {
                        Err(XMLError::Invalid(m)) => assert_ne!(m, ENDLESS),
                        _ => {}
                    }
                }
            }
        }
    }
}

#[test]
fn loaders_reject_junk_without_panic() {
    let mut state = 99u64;
    let all: Vec<u8> = (0..=255).collect();
    for _ in 0..3000 {
        let file = junk(&mut state, &all, 40);
        let _ = decompress(&file);
        assert!(MMP::load(None, &file).is_err());
        assert!(Pattern::load(None, &file).is_err());
        assert!(MMP::load(Some("mmp"), &file).is_err());
        assert!(Pattern::load(Some("xptz"), &file).is_err());
    }
}
