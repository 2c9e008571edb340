use vstd::prelude::*;

verus! {

/// What the generator is asked to do.
#[derive(Clone, Copy, Debug, PartialEq, Eq, Structural)]
pub enum MuseMode {
    TextToCharacter,
    TextToMotion,
    PoseStaging,
    StyleTransfer,
    Retarget,
}

/// The job type the server knows each mode by.
pub open spec fn job_type_of(mode: MuseMode) -> Seq<char> {
    match mode {
        MuseMode::TextToCharacter => "text_to_mesh"@,
        MuseMode::TextToMotion => "text_to_motion"@,
        MuseMode::PoseStaging => "pose_interpolation"@,
        MuseMode::StyleTransfer => "style_transfer"@,
        MuseMode::Retarget => "retarget"@,
    }
}

/// A generation request as it goes to the server: the job type and its
/// parameters. The style prompt is sent for style transfer only.
pub struct GenerateRequest {
    pub job_type: &'static str,
    pub prompt: String,
    pub seed: Option<u64>,
    pub style_prompt: Option<String>,
}

/// The generator panel: its mode, prompts, optional seed, and whether a
/// generation was asked for since it was last taken.
pub struct PromptPanel {
    pub visible: bool,
    pub mode: MuseMode,
    pub prompt: String,
    pub style_prompt: String,
    pub seed: Option<u64>,
    pub generate_clicked: bool,
}

/// Numeric value of a decimal digit character.
pub open spec fn digit_value(c: char) -> int {
    c as int - '0' as int
}

pub open spec fn is_digit(c: char) -> bool {
    '0' <= c <= '9'
}

/// The number that a string of decimal digits denotes.
pub open spec fn decimal_value(s: Seq<char>) -> int
    decreases s.len(),
{
    if s.len() == 0 {
        0
    } else {
        decimal_value(s.drop_last()) * 10 + digit_value(s.last())
    }
}

/// The digits of a seed text: the text without one leading `+`.
pub open spec fn seed_digits(s: Seq<char>) -> Seq<char> {
    if s.len() > 0 && s[0] == '+' {
        s.drop_first()
    } else {
        s
    }
}

/// The seed a text denotes: an optional `+` and at least one decimal digit,
/// nothing else, with a value that fits in `u64`; otherwise none.
pub open spec fn seed_of_text(s: Seq<char>) -> Option<u64> {
    let d = seed_digits(s);
    if d.len() > 0 && (forall|i: int| 0 <= i < d.len() ==> #[trigger] is_digit(d[i]))
        && decimal_value(d) <= u64::MAX {
        Some(decimal_value(d) as u64)
    } else {
        None
    }
}

proof fn lemma_decimal_value_nonneg(s: Seq<char>)
    requires
        forall|i: int| 0 <= i < s.len() ==> #[trigger] is_digit(s[i]),
    ensures
        decimal_value(s) >= 0,
    decreases s.len(),
{
    if s.len() > 0 {
        lemma_decimal_value_nonneg(s.drop_last());
        assert(is_digit(s[s.len() - 1]));
    }
}

/// A longer string of digits is worth at least as much as its prefix.
proof fn lemma_decimal_value_grows(s: Seq<char>, n: int)
    requires
        0 <= n <= s.len(),
        forall|i: int| 0 <= i < s.len() ==> #[trigger] is_digit(s[i]),
    ensures
        decimal_value(s.take(n)) <= decimal_value(s),
    decreases s.len() - n,
{
    if n < s.len() {
        lemma_decimal_value_grows(s, n + 1);
        assert(s.take(n + 1).drop_last() =~= s.take(n));
        assert(is_digit(s[n]));
        assert forall|i: int| 0 <= i < s.take(n).len() implies #[trigger] is_digit(s.take(n)[i]) by {
            assert(s.take(n)[i] == s[i]);
        }
        lemma_decimal_value_nonneg(s.take(n));
    } else {
        assert(s.take(n) =~= s);
    }
}

/// Reads a seed from the text of the seed field, as `str::parse::<u64>` does:
/// an optional `+`, then one or more decimal digits, with a value that fits.
pub fn parse_seed(text: &str) -> (r: Option<u64>)
    ensures
        r == seed_of_text(text@),
{
    let n = text.unicode_len();
    let mut start: usize = 0;
    if n > 0 && text.get_char(0) == '+' {
        start = 1;
    }
    let ghost d = seed_digits(text@);
    assert(d =~= text@.subrange(start as int, n as int));
    if start >= n {
        return None;
    }
    let mut value: u64 = 0;
    let mut i: usize = start;
    while i < n
        invariant
            start <= i <= n,
            n == text@.len(),
            d == text@.subrange(start as int, n as int),
            d == seed_digits(text@),
            forall|j: int| start <= j < i ==> #[trigger] is_digit(text@[j]),
            value == decimal_value(d.take(i - start)),
        decreases n - i,
    {
        let c = text.get_char(i);
        if !('0' <= c && c <= '9') {
            proof {
                assert(!is_digit(d[i - start]));
            }
            return None;
        }
        let digit = (c as u32 - '0' as u32) as u64;
        proof {
            assert(d.take(i - start + 1).drop_last() =~= d.take(i - start));
            assert(d.take(i - start + 1).last() == c);
        }
        match value.checked_mul(10) {
            Some(v10) => match v10.checked_add(digit) {
                Some(v) => {
                    value = v;
                },
                None => {
                    proof {
                        lemma_prefix_too_large(d, i - start + 1);
                    }
                    return None;
                },
            },
            None => {
                proof {
                    lemma_prefix_too_large(d, i - start + 1);
                }
                return None;
            },
        }
        i = i + 1;
    }
    proof {
        assert(d.take(n - start) =~= d);
        assert forall|j: int| 0 <= j < d.len() implies #[trigger] is_digit(d[j]) by {
            assert(is_digit(text@[start + j]));
        }
    }
    Some(value)
}

/// When a prefix of the digits already exceeds `u64`, the text is no seed.
proof fn lemma_prefix_too_large(d: Seq<char>, n: int)
    requires
        0 < n <= d.len(),
        decimal_value(d.take(n)) > u64::MAX,
    ensures
        not_u64_digits(d),
{
    if forall|i: int| 0 <= i < d.len() ==> #[trigger] is_digit(d[i]) {
        lemma_decimal_value_grows(d, n);
    }
}

/// The digit string is not a valid `u64`: a non-digit or a value too large.
spec fn not_u64_digits(d: Seq<char>) -> bool {
    !((forall|i: int| 0 <= i < d.len() ==> #[trigger] is_digit(d[i])) && decimal_value(d)
        <= u64::MAX)
}

/// The character of decimal digit `d`.
pub open spec fn digit_char(d: int) -> char {
    ('0' as int + d) as char
}

/// The decimal text of `v`, without sign or leading zeros.
pub open spec fn decimal_text(v: nat) -> Seq<char>
    decreases v,
{
    if v < 10 {
        seq![digit_char(v as int)]
    } else {
        decimal_text(v / 10).push(digit_char((v % 10) as int))
    }
}

fn digit_str(d: u64) -> (r: &'static str)
    requires
        d < 10,
    ensures
        r@ == seq![digit_char(d as int)],
{
    proof {
        reveal_strlit("0");
        reveal_strlit("1");
        reveal_strlit("2");
        reveal_strlit("3");
        reveal_strlit("4");
        reveal_strlit("5");
        reveal_strlit("6");
        reveal_strlit("7");
        reveal_strlit("8");
        reveal_strlit("9");
    }
    let r = if d == 0 {
        "0"
    } else if d == 1 {
        "1"
    } else if d == 2 {
        "2"
    } else if d == 3 {
        "3"
    } else if d == 4 {
        "4"
    } else if d == 5 {
        "5"
    } else if d == 6 {
        "6"
    } else if d == 7 {
        "7"
    } else if d == 8 {
        "8"
    } else {
        "9"
    };
    assert(r@ =~= seq![digit_char(d as int)]);
    r
}

/// The decimal text of `v`, as the seed field shows it.
pub fn decimal_string(v: u64) -> (r: String)
    ensures
        r@ == decimal_text(v as nat),
    decreases v,
{
    if v < 10 {
        String::from_str(digit_str(v))
    } else {
        let mut s = decimal_string(v / 10);
        s.append(digit_str(v % 10));
        s
    }
}

/// The decimal text of a number reads back as that number.
pub proof fn lemma_decimal_text(v: nat)
    ensures
        decimal_text(v).len() > 0,
        forall|i: int| 0 <= i < decimal_text(v).len() ==> #[trigger] is_digit(decimal_text(v)[i]),
        decimal_value(decimal_text(v)) == v,
    decreases v,
{
    if v < 10 {
        let t = seq![digit_char(v as int)];
        assert(t.drop_last() =~= Seq::<char>::empty());
        assert(digit_value(digit_char(v as int)) == v);
        assert(decimal_text(v) == t);
        assert(decimal_value(t) == decimal_value(t.drop_last()) * 10 + digit_value(t.last()));
        assert(decimal_value(Seq::<char>::empty()) == 0);
    } else {
        lemma_decimal_text(v / 10);
        let s = decimal_text(v / 10);
        let t = s.push(digit_char((v % 10) as int));
        assert(t.drop_last() =~= s);
        assert(digit_value(digit_char((v % 10) as int)) == v % 10);
        assert(decimal_value(t) == decimal_value(s) * 10 + digit_value(t.last()));
        assert(decimal_text(v) == t);
        assert((v / 10) * 10 + v % 10 == v);
        assert forall|i: int| 0 <= i < t.len() implies #[trigger] is_digit(t[i]) by {
            if i < s.len() {
                assert(t[i] == s[i]);
            }
        }
    }
}

/// Every seed that the seed field shows reads back as the same seed.
pub proof fn law_seed_text_round_trip(v: u64)
    ensures
        seed_of_text(decimal_text(v as nat)) == Some(v),
{
    lemma_decimal_text(v as nat);
    let s = decimal_text(v as nat);
    assert(is_digit(s[0]));
    assert(seed_digits(s) == s);
}

impl PromptPanel {
    pub fn new() -> (p: Self)
        ensures
            p.visible,
            p.mode == MuseMode::TextToCharacter,
            p.prompt@.len() == 0,
            p.style_prompt@.len() == 0,
            p.seed is None,
            !p.generate_clicked,
    {
        PromptPanel {
            visible: true,
            mode: MuseMode::TextToCharacter,
            prompt: String::new(),
            style_prompt: String::new(),
            seed: None,
            generate_clicked: false,
        }
    }

    /// Whether a generation was asked for; the request is consumed.
    pub fn take_generate(&mut self) -> (clicked: bool)
        ensures
            clicked == old(self).generate_clicked,
            !final(self).generate_clicked,
            final(self).visible == old(self).visible,
            final(self).mode == old(self).mode,
            final(self).prompt == old(self).prompt,
            final(self).style_prompt == old(self).style_prompt,
            final(self).seed == old(self).seed,
    {
        let val = self.generate_clicked;
        self.generate_clicked = false;
        val
    }

    /// Takes the new text of the seed field: the seed becomes what it denotes,
    /// or none.
    pub fn set_seed_text(&mut self, text: &str)
        ensures
            final(self).seed == seed_of_text(text@),
            final(self).visible == old(self).visible,
            final(self).mode == old(self).mode,
            final(self).prompt == old(self).prompt,
            final(self).style_prompt == old(self).style_prompt,
            final(self).generate_clicked == old(self).generate_clicked,
    {
        self.seed = parse_seed(text);
    }

    /// The text of the seed field: the seed in decimal, or empty.
    pub fn seed_text(&self) -> (r: String)
        ensures
            r@ == match self.seed {
                Some(v) => decimal_text(v as nat),
                None => Seq::<char>::empty(),
            },
    {
        match self.seed {
            Some(v) => decimal_string(v),
            None => String::new(),
        }
    }

    /// The job type of the current mode.
    pub fn job_type(&self) -> (r: &'static str)
        ensures
            r@ == job_type_of(self.mode),
    {
        match self.mode {
            MuseMode::TextToCharacter => "text_to_mesh",
            MuseMode::TextToMotion => "text_to_motion",
            MuseMode::PoseStaging => "pose_interpolation",
            MuseMode::StyleTransfer => "style_transfer",
            MuseMode::Retarget => "retarget",
        }
    }

    /// The request the Generate button sends: the mode's job type, the prompt,
    /// the seed if one is set, and the style prompt in style-transfer mode.
    pub fn generate_request(&self) -> (r: GenerateRequest)
        ensures
            r.job_type@ == job_type_of(self.mode),
            r.prompt@ == self.prompt@,
            r.seed == self.seed,
            match r.style_prompt {
                Some(s) => self.mode == MuseMode::StyleTransfer && s@ == self.style_prompt@,
                None => self.mode != MuseMode::StyleTransfer,
            },
    {
        let style_prompt = if self.mode == MuseMode::StyleTransfer {
            Some(self.style_prompt.clone())
        } else {
            None
        };
        GenerateRequest {
            job_type: self.job_type(),
            prompt: self.prompt.clone(),
            seed: self.seed,
            style_prompt,
        }
    }
}

} // verus!
