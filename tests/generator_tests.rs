use kevi::generator::{DefaultPasswordGenerator, GenError, GenPolicy, Rng};
use std::sync::Mutex;

struct MockRng {
    data: Mutex<Vec<u8>>,
}

impl MockRng {
    fn new(seq: &[u8]) -> Self {
        Self { data: Mutex::new(seq.to_vec()) }
    }
}

impl Rng for MockRng {
    fn fill(&self, bytes: &mut Vec<u8>) -> Result<(), GenError> {
        let mut guard = self.data.lock().unwrap();
        if guard.is_empty() {
            *guard = vec![0u8; 1024];
        }
        for b in bytes.iter_mut() {
            let v = guard.remove(0);
            *b = v;
            guard.push(v.wrapping_add(1));
        }
        Ok(())
    }
}

struct SaturatedRng;

impl Rng for SaturatedRng {
    fn fill(&self, bytes: &mut Vec<u8>) -> Result<(), GenError> {
        for b in bytes.iter_mut() {
            *b = 0xFF;
        }
        Ok(())
    }
}

struct FailingRng;

impl Rng for FailingRng {
    fn fill(&self, _bytes: &mut Vec<u8>) -> Result<(), GenError> {
        Err(GenError::RngFailed)
    }
}

#[test]
fn char_generator_respects_classes_and_length() {
    let rng = MockRng::new(&[1, 2, 3, 4, 5, 6, 7, 8]);
    let gen = DefaultPasswordGenerator::new(rng);
    let mut p = GenPolicy::default();
    p.length = 24;
    let s = gen.generate(&p).unwrap();
    assert_eq!(s.len(), 24);
    assert!(s.chars().any(|c| c.is_ascii_lowercase()));
    assert!(s.chars().any(|c| c.is_ascii_uppercase()));
    assert!(s.chars().any(|c| c.is_ascii_digit()));
    assert!(s.chars().any(|c| !c.is_ascii_alphanumeric()));
}

#[test]
fn char_generator_no_symbols_no_digits() {
    let rng = MockRng::new(&[9, 9, 9, 9, 9, 9, 9, 9]);
    let gen = DefaultPasswordGenerator::new(rng);
    let mut p = GenPolicy::default();
    p.symbols = false;
    p.digits = false;
    p.length = 12;
    let s = gen.generate(&p).unwrap();
    assert_eq!(s.len(), 12);
    assert!(s.chars().all(|c| c.is_ascii_alphabetic()));
}

#[test]
fn invalid_policy_rejected() {
    let rng = MockRng::new(&[0; 32]);
    let gen = DefaultPasswordGenerator::new(rng);
    let mut p = GenPolicy::default();
    p.lower = false;
    p.upper = false;
    p.digits = false;
    p.symbols = false;
    assert!(gen.generate(&p).is_err());
    p.lower = true;
    p.upper = true;
    p.digits = false;
    p.symbols = false;
    p.length = 1;
    assert!(gen.generate(&p).is_err());
}

#[test]
fn passphrase_mode_generates_words() {
    let rng = MockRng::new(&[1, 2, 3, 4, 5, 6, 7, 8]);
    let gen = DefaultPasswordGenerator::new(rng);
    let mut p = GenPolicy::default();
    p.passphrase = true;
    p.words = 5;
    p.sep = ":".to_string();
    let s = gen.generate(&p).unwrap();
    let parts: Vec<&str> = s.split(':').collect();
    assert_eq!(parts.len(), 5);
    assert!(parts.iter().all(|w| !w.is_empty()));
    assert!(s.chars().all(|c| c.is_ascii_lowercase() || c == ':'));
}

#[test]
fn policy_errors_are_told_apart() {
    let gen = DefaultPasswordGenerator::new(MockRng::new(&[0; 8]));
    let mut p = GenPolicy::default();
    p.lower = false;
    p.upper = false;
    p.digits = false;
    p.symbols = false;
    assert_eq!(gen.generate(&p), Err(GenError::NoClasses));
    p.lower = true;
    p.upper = true;
    p.length = 1;
    assert_eq!(gen.generate(&p), Err(GenError::TooShort));
    p.length = 2;
    assert_eq!(gen.generate(&p).unwrap().len(), 2);
}

#[test]
fn ambiguous_characters_are_avoided() {
    let gen = DefaultPasswordGenerator::new(MockRng::new(&[7, 200, 13, 77, 3, 250, 41, 99]));
    let mut p = GenPolicy::default();
    p.length = 200;
    let s = gen.generate(&p).unwrap();
    assert_eq!(s.len(), 200);
    assert!(s.chars().all(|c| !"O0Il|1".contains(c)));
}

#[test]
fn failing_random_source_is_reported() {
    let gen = DefaultPasswordGenerator::new(FailingRng);
    let p = GenPolicy::default();
    assert_eq!(gen.generate(&p), Err(GenError::RngFailed));
}

#[test]
fn passphrase_with_zero_words_gives_one_word() {
    let words: Vec<&'static str> = vec!["alpha", "beta"];
    let gen = DefaultPasswordGenerator::new_with_wordlist(MockRng::new(&[1, 0, 0, 0]), words);
    let mut p = GenPolicy::default();
    p.passphrase = true;
    p.words = 0;
    p.sep = "-".to_string();
    let s = gen.generate(&p).unwrap();
    assert!(s == "alpha" || s == "beta");
}

#[test]
fn passphrase_from_empty_wordlist_is_refused() {
    let gen = DefaultPasswordGenerator::new_with_wordlist(MockRng::new(&[1]), Vec::new());
    let mut p = GenPolicy::default();
    p.passphrase = true;
    assert_eq!(gen.generate(&p), Err(GenError::EmptyPool));
}

#[test]
fn system_rng_generates_passwords() {
    let gen = DefaultPasswordGenerator::new(kevi::generator::SystemRng);
    let p = GenPolicy::default();
    assert_eq!(gen.generate(&p).unwrap().len(), 20);
}

#[test]
fn draws_outside_the_unbiased_zone_give_up() {
    let gen = DefaultPasswordGenerator::new(SaturatedRng);
    let p = GenPolicy::default();
    assert_eq!(gen.generate(&p), Err(GenError::Exhausted));
}
