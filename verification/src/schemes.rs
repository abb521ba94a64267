//! The discretisation schemes that the laminar SIMPLE solver knows.

use crate::readback;
use crate::text;
use crate::text::CharClass;
use vstd::prelude::*;

verus! {

/// How gradients are taken.
#[derive(Clone, Copy, Debug, Eq, PartialEq, Structural)]
pub enum LaminarSimpleGradientScheme {
    GaussLinear,
}

/// How the momentum that the flow carries is discretised.
#[derive(Clone, Copy, Debug, Eq, PartialEq, Structural)]
pub enum LaminarSimpleConvectionScheme {
    GaussUpwind,
    GaussLinearUpwind,
}

/// How values are interpolated to faces.
#[derive(Clone, Copy, Debug, Eq, PartialEq, Structural)]
pub enum LaminarSimpleInterpolationScheme {
    Linear,
}

/// How gradients normal to faces are taken.
#[derive(Clone, Copy, Debug, Eq, PartialEq, Structural)]
pub enum LaminarSimpleSnGradScheme {
    Corrected,
    Orthogonal,
    Uncorrected,
}

/// How the diffusion is discretised.
#[derive(Clone, Copy, Debug, Eq, PartialEq, Structural)]
pub enum LaminarSimpleLaplacianScheme {
    GaussLinearCorrected,
    GaussLinearOrthogonal,
    GaussLinearUncorrected,
}

/// The schemes of a run.
#[derive(Clone, Copy, Debug, Eq, PartialEq, Structural)]
pub struct LaminarSimpleSchemes {
    pub grad_p: LaminarSimpleGradientScheme,
    pub grad_u: LaminarSimpleGradientScheme,
    pub div_phi_u: LaminarSimpleConvectionScheme,
    pub laplacian: LaminarSimpleLaplacianScheme,
    pub interpolation: LaminarSimpleInterpolationScheme,
    pub sn_grad: LaminarSimpleSnGradScheme,
}

/// A word of a scheme without semicolons round it, in lower case.
pub open spec fn scheme_word(word: Seq<char>) -> Seq<char> {
    text::lowered(text::strip(CharClass::Only(';'), word))
}

/// The words of a scheme without semicolons round them, in lower case.
pub open spec fn scheme_words(value: Seq<char>) -> Seq<Seq<char>> {
    text::nonempty(text::words(value).map_values(|word: Seq<char>| scheme_word(word)))
}

/// The words behind a leading `bounded`.
pub open spec fn unbounded(found: Seq<Seq<char>>) -> Seq<Seq<char>> {
    if found.len() > 0 && found[0] == "bounded"@ {
        found.skip(1)
    } else {
        found
    }
}

/// Whether the word at `at` is `expected`.
pub open spec fn word_is(found: Seq<Seq<char>>, at: int, expected: Seq<char>) -> bool {
    at < found.len() && found[at] == expected
}

/// Whether there is this one word.
pub open spec fn one_word(found: Seq<Seq<char>>, first: Seq<char>) -> bool {
    found.len() == 1 && found[0] == first
}

/// Whether there are these two words.
pub open spec fn two_words(found: Seq<Seq<char>>, first: Seq<char>, second: Seq<char>) -> bool {
    found.len() == 2 && found[0] == first && found[1] == second
}

/// The gradient scheme that a value names.
pub open spec fn gradient_scheme(value: Seq<char>) -> Result<
    LaminarSimpleGradientScheme,
    Seq<char>,
> {
    if two_words(scheme_words(value), "gauss"@, "linear"@) {
        Ok(LaminarSimpleGradientScheme::GaussLinear)
    } else {
        Err(
            "unsupported laminar SIMPLE grad scheme '"@ + value
                + "'; currently supported: Gauss linear"@,
        )
    }
}

/// The convection scheme that a value names.
pub open spec fn convection_scheme(value: Seq<char>) -> Result<
    LaminarSimpleConvectionScheme,
    Seq<char>,
> {
    let found = unbounded(scheme_words(value));
    if two_words(found, "gauss"@, "upwind"@) {
        Ok(LaminarSimpleConvectionScheme::GaussUpwind)
    } else if word_is(found, 0, "gauss"@) && word_is(found, 1, "linearupwind"@) {
        Ok(LaminarSimpleConvectionScheme::GaussLinearUpwind)
    } else if one_word(found, "none"@) {
        Err(
            "laminar SIMPLE requires divSchemes.div(phi,U); divSchemes default none is not executable"@,
        )
    } else {
        Err(
            "unsupported laminar SIMPLE div(phi,U) scheme '"@ + value
                + "'; currently supported: Gauss upwind or Gauss linearUpwind grad(U)"@,
        )
    }
}

/// The interpolation scheme that a value names.
pub open spec fn interpolation_scheme(value: Seq<char>) -> Result<
    LaminarSimpleInterpolationScheme,
    Seq<char>,
> {
    if one_word(scheme_words(value), "linear"@) {
        Ok(LaminarSimpleInterpolationScheme::Linear)
    } else {
        Err(
            "unsupported laminar SIMPLE interpolation scheme '"@ + value
                + "'; currently supported: linear"@,
        )
    }
}

/// The scheme for normal gradients that a value names.
pub open spec fn sn_grad_scheme(value: Seq<char>) -> Result<LaminarSimpleSnGradScheme, Seq<char>> {
    let found = scheme_words(value);
    if one_word(found, "corrected"@) {
        Ok(LaminarSimpleSnGradScheme::Corrected)
    } else if one_word(found, "orthogonal"@) {
        Ok(LaminarSimpleSnGradScheme::Orthogonal)
    } else if one_word(found, "uncorrected"@) {
        Ok(LaminarSimpleSnGradScheme::Uncorrected)
    } else {
        Err(
            "unsupported laminar SIMPLE snGrad scheme '"@ + value
                + "'; currently supported: corrected, orthogonal, uncorrected"@,
        )
    }
}

/// The diffusion scheme that goes with a scheme for normal gradients.
pub open spec fn laplacian_of(sn_grad: LaminarSimpleSnGradScheme) -> LaminarSimpleLaplacianScheme {
    match sn_grad {
        LaminarSimpleSnGradScheme::Corrected => LaminarSimpleLaplacianScheme::GaussLinearCorrected,
        LaminarSimpleSnGradScheme::Orthogonal => {
            LaminarSimpleLaplacianScheme::GaussLinearOrthogonal
        },
        LaminarSimpleSnGradScheme::Uncorrected => {
            LaminarSimpleLaplacianScheme::GaussLinearUncorrected
        },
    }
}

/// The diffusion scheme that a value names; where it leaves the correction out,
/// that of the normal gradients holds.
pub open spec fn laplacian_scheme(value: Seq<char>, sn_grad: LaminarSimpleSnGradScheme) -> Result<
    LaminarSimpleLaplacianScheme,
    Seq<char>,
> {
    let found = unbounded(scheme_words(value));
    if !word_is(found, 0, "gauss"@) || !word_is(found, 1, "linear"@) || found.len() > 3 {
        Err(
            "unsupported laminar SIMPLE laplacian scheme '"@ + value
                + "'; currently supported: Gauss linear corrected/orthogonal/uncorrected"@,
        )
    } else if found.len() == 2 {
        Ok(laplacian_of(sn_grad))
    } else if found[2] == "corrected"@ {
        Ok(LaminarSimpleLaplacianScheme::GaussLinearCorrected)
    } else if found[2] == "orthogonal"@ {
        Ok(LaminarSimpleLaplacianScheme::GaussLinearOrthogonal)
    } else if found[2] == "uncorrected"@ {
        Ok(LaminarSimpleLaplacianScheme::GaussLinearUncorrected)
    } else {
        Err(
            "unsupported laminar SIMPLE laplacian correction '"@ + found[2] + "' in scheme '"@
                + value + "'"@,
        )
    }
}

/// The notation of a gradient scheme.
pub open spec fn gradient_name(scheme: LaminarSimpleGradientScheme) -> Seq<char> {
    "Gauss linear"@
}

/// The notation of a convection scheme.
pub open spec fn convection_name(scheme: LaminarSimpleConvectionScheme) -> Seq<char> {
    match scheme {
        LaminarSimpleConvectionScheme::GaussUpwind => "Gauss upwind"@,
        LaminarSimpleConvectionScheme::GaussLinearUpwind => "Gauss linearUpwind grad(U)"@,
    }
}

/// The notation of an interpolation scheme.
pub open spec fn interpolation_name(scheme: LaminarSimpleInterpolationScheme) -> Seq<char> {
    "linear"@
}

/// The notation of a scheme for normal gradients.
pub open spec fn sn_grad_name(scheme: LaminarSimpleSnGradScheme) -> Seq<char> {
    match scheme {
        LaminarSimpleSnGradScheme::Corrected => "corrected"@,
        LaminarSimpleSnGradScheme::Orthogonal => "orthogonal"@,
        LaminarSimpleSnGradScheme::Uncorrected => "uncorrected"@,
    }
}

/// The notation of a diffusion scheme.
pub open spec fn laplacian_name(scheme: LaminarSimpleLaplacianScheme) -> Seq<char> {
    match scheme {
        LaminarSimpleLaplacianScheme::GaussLinearCorrected => "Gauss linear corrected"@,
        LaminarSimpleLaplacianScheme::GaussLinearOrthogonal => "Gauss linear orthogonal"@,
        LaminarSimpleLaplacianScheme::GaussLinearUncorrected => "Gauss linear uncorrected"@,
    }
}

/// Whether a text is a word without semicolons at its ends.
pub open spec fn is_bare(word: Seq<char>) -> bool {
    &&& word.len() > 0
    &&& word[0] != ';'
    &&& word.last() != ';'
    &&& readback::lacks(CharClass::Space, word)
}

proof fn lemma_scheme_words(parts: Seq<Seq<char>>)
    requires
        forall|i: int| 0 <= i < parts.len() ==> is_bare(#[trigger] parts[i]),
    ensures
        scheme_words(text::join(parts, " "@)) == Seq::new(
            parts.len(),
            |i: int| text::lowered(parts[i]),
        ),
{
    assert forall|i: int| 0 <= i < parts.len() implies (#[trigger] parts[i]).len() > 0
        && readback::lacks(CharClass::Space, parts[i]) by {
        assert(is_bare(parts[i]));
    }
    readback::joined_words_are_read(parts);
    let found = parts.map_values(|word: Seq<char>| scheme_word(word));
    assert forall|i: int| 0 <= i < parts.len() implies #[trigger] found[i] == text::lowered(
        parts[i],
    ) && found[i].len() > 0 by {
        assert(is_bare(parts[i]));
    }
    readback::lemma_nonempty_all(found);
    assert(found =~= Seq::new(parts.len(), |i: int| text::lowered(parts[i])));
}

proof fn lemma_gauss()
    ensures
        is_bare("Gauss"@),
        is_bare("linear"@),
        is_bare("upwind"@),
        is_bare("linearUpwind"@),
        is_bare("grad(U)"@),
        is_bare("corrected"@),
        is_bare("orthogonal"@),
        is_bare("uncorrected"@),
        text::lowered("Gauss"@) == "gauss"@,
        text::lowered("linear"@) == "linear"@,
        text::lowered("upwind"@) == "upwind"@,
        text::lowered("linearUpwind"@) == "linearupwind"@,
        text::lowered("corrected"@) == "corrected"@,
        text::lowered("orthogonal"@) == "orthogonal"@,
        text::lowered("uncorrected"@) == "uncorrected"@,
{
    reveal_strlit("Gauss");
    reveal_strlit("gauss");
    reveal_strlit("linear");
    reveal_strlit("upwind");
    reveal_strlit("linearUpwind");
    reveal_strlit("linearupwind");
    reveal_strlit("grad(U)");
    reveal_strlit("corrected");
    reveal_strlit("orthogonal");
    reveal_strlit("uncorrected");
    assert(text::lowered("Gauss"@) =~= "gauss"@);
    assert(text::lowered("linear"@) =~= "linear"@);
    assert(text::lowered("upwind"@) =~= "upwind"@);
    assert(text::lowered("linearUpwind"@) =~= "linearupwind"@);
    assert(text::lowered("corrected"@) =~= "corrected"@);
    assert(text::lowered("orthogonal"@) =~= "orthogonal"@);
    assert(text::lowered("uncorrected"@) =~= "uncorrected"@);
}

proof fn lemma_words_differ()
    ensures
        "gauss"@ != "bounded"@,
        "linearupwind"@ != "upwind"@,
        "orthogonal"@ != "corrected"@,
        "uncorrected"@ != "corrected"@,
        "uncorrected"@ != "orthogonal"@,
{
    reveal_strlit("gauss");
    reveal_strlit("bounded");
    reveal_strlit("linearupwind");
    reveal_strlit("upwind");
    reveal_strlit("corrected");
    reveal_strlit("orthogonal");
    reveal_strlit("uncorrected");
    assert("gauss"@.len() == 5);
    assert("bounded"@.len() == 7);
    assert("linearupwind"@.len() == 12);
    assert("upwind"@.len() == 6);
    assert("corrected"@.len() == 9);
    assert("orthogonal"@.len() == 10);
    assert("uncorrected"@.len() == 11);
}

proof fn lemma_pair_words(first: Seq<char>, second: Seq<char>)
    requires
        is_bare(first),
        is_bare(second),
    ensures
        scheme_words(first + " "@ + second) == seq![text::lowered(first), text::lowered(second)],
{
    let parts = seq![first, second];
    assert(parts.drop_last() =~= seq![first]);
    assert(text::join(seq![first], " "@) == first);
    assert(text::join(parts, " "@) == first + " "@ + second);
    lemma_scheme_words(parts);
    assert(scheme_words(first + " "@ + second) =~= seq![text::lowered(first), text::lowered(second)]);
}

proof fn lemma_triple_words(first: Seq<char>, second: Seq<char>, third: Seq<char>)
    requires
        is_bare(first),
        is_bare(second),
        is_bare(third),
    ensures
        scheme_words(first + " "@ + second + " "@ + third) == seq![
            text::lowered(first),
            text::lowered(second),
            text::lowered(third),
        ],
{
    let parts = seq![first, second, third];
    assert(parts.drop_last() =~= seq![first, second]);
    assert(parts.drop_last().drop_last() =~= seq![first]);
    assert(text::join(seq![first], " "@) == first);
    assert(text::join(seq![first, second], " "@) == first + " "@ + second);
    assert(text::join(parts, " "@) == first + " "@ + second + " "@ + third);
    lemma_scheme_words(parts);
    assert(scheme_words(first + " "@ + second + " "@ + third) =~= seq![
        text::lowered(first),
        text::lowered(second),
        text::lowered(third),
    ]);
}

proof fn lemma_single_word(word: Seq<char>)
    requires
        is_bare(word),
    ensures
        scheme_words(word) == seq![text::lowered(word)],
{
    let parts = seq![word];
    assert(text::join(parts, " "@) == word);
    lemma_scheme_words(parts);
    assert(scheme_words(word) =~= seq![text::lowered(word)]);
}

/// The notation of a gradient scheme names it.
pub proof fn gradient_name_is_read(scheme: LaminarSimpleGradientScheme)
    ensures
        gradient_scheme(gradient_name(scheme)) == Ok::<LaminarSimpleGradientScheme, Seq<char>>(
            scheme,
        ),
{
    lemma_gauss();
    lemma_pair_words("Gauss"@, "linear"@);
    reveal_strlit("Gauss");
    reveal_strlit("linear");
    reveal_strlit(" ");
    reveal_strlit("Gauss linear");
    assert("Gauss linear"@ =~= "Gauss"@ + " "@ + "linear"@);
}

/// The notation of a convection scheme names it.
pub proof fn convection_name_is_read(scheme: LaminarSimpleConvectionScheme)
    ensures
        convection_scheme(convection_name(scheme)) == Ok::<
            LaminarSimpleConvectionScheme,
            Seq<char>,
        >(scheme),
{
    lemma_gauss();
    lemma_words_differ();
    lemma_pair_words("Gauss"@, "upwind"@);
    lemma_triple_words("Gauss"@, "linearUpwind"@, "grad(U)"@);
    reveal_strlit("Gauss");
    reveal_strlit("upwind");
    reveal_strlit("linearUpwind");
    reveal_strlit("grad(U)");
    reveal_strlit(" ");
    reveal_strlit("Gauss upwind");
    reveal_strlit("Gauss linearUpwind grad(U)");
    assert("Gauss upwind"@ =~= "Gauss"@ + " "@ + "upwind"@);
    assert("Gauss linearUpwind grad(U)"@ =~= "Gauss"@ + " "@ + "linearUpwind"@ + " "@
        + "grad(U)"@);
}

/// The notation of an interpolation scheme names it.
pub proof fn interpolation_name_is_read(scheme: LaminarSimpleInterpolationScheme)
    ensures
        interpolation_scheme(interpolation_name(scheme)) == Ok::<
            LaminarSimpleInterpolationScheme,
            Seq<char>,
        >(scheme),
{
    lemma_gauss();
    lemma_single_word("linear"@);
}

/// The notation of a scheme for normal gradients names it.
pub proof fn sn_grad_name_is_read(scheme: LaminarSimpleSnGradScheme)
    ensures
        sn_grad_scheme(sn_grad_name(scheme)) == Ok::<LaminarSimpleSnGradScheme, Seq<char>>(scheme),
{
    lemma_gauss();
    lemma_words_differ();
    lemma_single_word("corrected"@);
    lemma_single_word("orthogonal"@);
    lemma_single_word("uncorrected"@);
}

/// The notation of a diffusion scheme names it, whatever the scheme for normal
/// gradients is.
pub proof fn laplacian_name_is_read(
    scheme: LaminarSimpleLaplacianScheme,
    sn_grad: LaminarSimpleSnGradScheme,
)
    ensures
        laplacian_scheme(laplacian_name(scheme), sn_grad) == Ok::<
            LaminarSimpleLaplacianScheme,
            Seq<char>,
        >(scheme),
{
    lemma_gauss();
    lemma_words_differ();
    lemma_triple_words("Gauss"@, "linear"@, "corrected"@);
    lemma_triple_words("Gauss"@, "linear"@, "orthogonal"@);
    lemma_triple_words("Gauss"@, "linear"@, "uncorrected"@);
    reveal_strlit("Gauss");
    reveal_strlit("linear");
    reveal_strlit("corrected");
    reveal_strlit("orthogonal");
    reveal_strlit("uncorrected");
    reveal_strlit(" ");
    reveal_strlit("Gauss linear corrected");
    reveal_strlit("Gauss linear orthogonal");
    reveal_strlit("Gauss linear uncorrected");
    assert("Gauss linear corrected"@ =~= "Gauss"@ + " "@ + "linear"@ + " "@ + "corrected"@);
    assert("Gauss linear orthogonal"@ =~= "Gauss"@ + " "@ + "linear"@ + " "@ + "orthogonal"@);
    assert("Gauss linear uncorrected"@ =~= "Gauss"@ + " "@ + "linear"@ + " "@ + "uncorrected"@);
}

impl LaminarSimpleGradientScheme {
    /// The notation of the scheme.
    pub fn to_string(&self) -> (name: String)
        ensures
            name@ == gradient_name(*self),
    {
        "Gauss linear".to_string()
    }
}

impl LaminarSimpleConvectionScheme {
    /// The notation of the scheme.
    pub fn to_string(&self) -> (name: String)
        ensures
            name@ == convection_name(*self),
    {
        match self {
            LaminarSimpleConvectionScheme::GaussUpwind => "Gauss upwind".to_string(),
            LaminarSimpleConvectionScheme::GaussLinearUpwind => {
                "Gauss linearUpwind grad(U)".to_string()
            },
        }
    }
}

impl LaminarSimpleInterpolationScheme {
    /// The notation of the scheme.
    pub fn to_string(&self) -> (name: String)
        ensures
            name@ == interpolation_name(*self),
    {
        "linear".to_string()
    }
}

impl LaminarSimpleSnGradScheme {
    /// The notation of the scheme.
    pub fn to_string(&self) -> (name: String)
        ensures
            name@ == sn_grad_name(*self),
    {
        match self {
            LaminarSimpleSnGradScheme::Corrected => "corrected".to_string(),
            LaminarSimpleSnGradScheme::Orthogonal => "orthogonal".to_string(),
            LaminarSimpleSnGradScheme::Uncorrected => "uncorrected".to_string(),
        }
    }
}

impl LaminarSimpleLaplacianScheme {
    /// The notation of the scheme.
    pub fn to_string(&self) -> (name: String)
        ensures
            name@ == laplacian_name(*self),
    {
        match self {
            LaminarSimpleLaplacianScheme::GaussLinearCorrected => {
                "Gauss linear corrected".to_string()
            },
            LaminarSimpleLaplacianScheme::GaussLinearOrthogonal => {
                "Gauss linear orthogonal".to_string()
            },
            LaminarSimpleLaplacianScheme::GaussLinearUncorrected => {
                "Gauss linear uncorrected".to_string()
            },
        }
    }
}

/// The words of a scheme without semicolons round them, in lower case.
pub fn normalized_scheme_tokens(value: &str) -> (found: Vec<String>)
    ensures
        text::texts(found@) == scheme_words(value@),
{
    let raw = text::words_of(value);
    let ghost all = text::words(value@);
    let ghost wanted = all.map_values(|word: Seq<char>| scheme_word(word));
    let mut normal: Vec<String> = Vec::new();
    let mut i: usize = 0;
    while i < raw.len()
        invariant
            i <= raw@.len(),
            text::texts(raw@) == all,
            wanted == all.map_values(|word: Seq<char>| scheme_word(word)),
            text::texts(normal@) == wanted.take(i as int),
        decreases raw@.len() - i,
    {
        let stripped = text::trimmed_of(raw[i].as_str(), CharClass::Only(';'));
        let ghost earlier = text::texts(normal@);
        normal.push(text::lowercase(stripped.as_str()));
        assert(text::texts(normal@) =~= earlier.push(wanted[i as int]));
        i += 1;
    }
    assert(text::texts(normal@) =~= wanted);
    text::drop_empty(normal)
}

fn strip_bounded_scheme_prefix(found: Vec<String>) -> (rest: Vec<String>)
    ensures
        text::texts(rest@) == unbounded(text::texts(found@)),
{
    if !found.is_empty() && text::text_eq(found[0].as_str(), "bounded") {
        let mut rest = found;
        let first = rest.remove(0);
        assert(text::texts(rest@) =~= text::texts(found@).skip(1));
        rest
    } else {
        found
    }
}

fn scheme_token_is(found: &Vec<String>, at: usize, expected: &str) -> (same: bool)
    ensures
        same == word_is(text::texts(found@), at as int, expected@),
{
    at < found.len() && text::text_eq(found[at].as_str(), expected)
}

fn unsupported(front: &str, value: &str, back: &str) -> (message: String)
    ensures
        message@ == front@ + value@ + back@,
{
    let mut message = front.to_string();
    message.append(value);
    message.append(back);
    message
}

/// The gradient scheme that a value names.
pub fn parse_laminar_simple_gradient_scheme(value: &str) -> (result: Result<
    LaminarSimpleGradientScheme,
    String,
>)
    ensures
        match result {
            Ok(scheme) => text::accepts(gradient_scheme(value@), scheme),
            Err(message) => text::refuses(gradient_scheme(value@), message),
        },
{
    let found = normalized_scheme_tokens(value);
    if found.len() == 2 && scheme_token_is(&found, 0, "gauss") && scheme_token_is(
        &found,
        1,
        "linear",
    ) {
        Ok(LaminarSimpleGradientScheme::GaussLinear)
    } else {
        Err(
            unsupported(
                "unsupported laminar SIMPLE grad scheme '",
                value,
                "'; currently supported: Gauss linear",
            ),
        )
    }
}

/// The convection scheme that a value names.
pub fn parse_laminar_simple_convection_scheme(value: &str) -> (result: Result<
    LaminarSimpleConvectionScheme,
    String,
>)
    ensures
        match result {
            Ok(scheme) => text::accepts(convection_scheme(value@), scheme),
            Err(message) => text::refuses(convection_scheme(value@), message),
        },
{
    let found = strip_bounded_scheme_prefix(normalized_scheme_tokens(value));
    if found.len() == 2 && scheme_token_is(&found, 0, "gauss") && scheme_token_is(
        &found,
        1,
        "upwind",
    ) {
        Ok(LaminarSimpleConvectionScheme::GaussUpwind)
    } else if scheme_token_is(&found, 0, "gauss") && scheme_token_is(&found, 1, "linearupwind") {
        Ok(LaminarSimpleConvectionScheme::GaussLinearUpwind)
    } else if found.len() == 1 && scheme_token_is(&found, 0, "none") {
        Err(
            "laminar SIMPLE requires divSchemes.div(phi,U); divSchemes default none is not executable".to_string(),
        )
    } else {
        Err(
            unsupported(
                "unsupported laminar SIMPLE div(phi,U) scheme '",
                value,
                "'; currently supported: Gauss upwind or Gauss linearUpwind grad(U)",
            ),
        )
    }
}

/// The interpolation scheme that a value names.
pub fn parse_laminar_simple_interpolation_scheme(value: &str) -> (result: Result<
    LaminarSimpleInterpolationScheme,
    String,
>)
    ensures
        match result {
            Ok(scheme) => text::accepts(interpolation_scheme(value@), scheme),
            Err(message) => text::refuses(interpolation_scheme(value@), message),
        },
{
    let found = normalized_scheme_tokens(value);
    if found.len() == 1 && scheme_token_is(&found, 0, "linear") {
        Ok(LaminarSimpleInterpolationScheme::Linear)
    } else {
        Err(
            unsupported(
                "unsupported laminar SIMPLE interpolation scheme '",
                value,
                "'; currently supported: linear",
            ),
        )
    }
}

/// The scheme for normal gradients that a value names.
pub fn parse_laminar_simple_sn_grad_scheme(value: &str) -> (result: Result<
    LaminarSimpleSnGradScheme,
    String,
>)
    ensures
        match result {
            Ok(scheme) => text::accepts(sn_grad_scheme(value@), scheme),
            Err(message) => text::refuses(sn_grad_scheme(value@), message),
        },
{
    let found = normalized_scheme_tokens(value);
    if found.len() == 1 && scheme_token_is(&found, 0, "corrected") {
        Ok(LaminarSimpleSnGradScheme::Corrected)
    } else if found.len() == 1 && scheme_token_is(&found, 0, "orthogonal") {
        Ok(LaminarSimpleSnGradScheme::Orthogonal)
    } else if found.len() == 1 && scheme_token_is(&found, 0, "uncorrected") {
        Ok(LaminarSimpleSnGradScheme::Uncorrected)
    } else {
        Err(
            unsupported(
                "unsupported laminar SIMPLE snGrad scheme '",
                value,
                "'; currently supported: corrected, orthogonal, uncorrected",
            ),
        )
    }
}

fn laplacian_from_sn_grad(sn_grad: LaminarSimpleSnGradScheme) -> (scheme:
    LaminarSimpleLaplacianScheme)
    ensures
        scheme == laplacian_of(sn_grad),
{
    match sn_grad {
        LaminarSimpleSnGradScheme::Corrected => LaminarSimpleLaplacianScheme::GaussLinearCorrected,
        LaminarSimpleSnGradScheme::Orthogonal => {
            LaminarSimpleLaplacianScheme::GaussLinearOrthogonal
        },
        LaminarSimpleSnGradScheme::Uncorrected => {
            LaminarSimpleLaplacianScheme::GaussLinearUncorrected
        },
    }
}

/// The diffusion scheme that a value names; where it leaves the correction out,
/// that of the normal gradients holds.
pub fn parse_laminar_simple_laplacian_scheme(
    value: &str,
    sn_grad: LaminarSimpleSnGradScheme,
) -> (result: Result<LaminarSimpleLaplacianScheme, String>)
    ensures
        match result {
            Ok(scheme) => text::accepts(laplacian_scheme(value@, sn_grad), scheme),
            Err(message) => text::refuses(laplacian_scheme(value@, sn_grad), message),
        },
{
    let found = strip_bounded_scheme_prefix(normalized_scheme_tokens(value));
    if !scheme_token_is(&found, 0, "gauss") || !scheme_token_is(&found, 1, "linear")
        || found.len() > 3 {
        return Err(
            unsupported(
                "unsupported laminar SIMPLE laplacian scheme '",
                value,
                "'; currently supported: Gauss linear corrected/orthogonal/uncorrected",
            ),
        );
    }
    if found.len() == 2 {
        return Ok(laplacian_from_sn_grad(sn_grad));
    }
    if scheme_token_is(&found, 2, "corrected") {
        Ok(LaminarSimpleLaplacianScheme::GaussLinearCorrected)
    } else if scheme_token_is(&found, 2, "orthogonal") {
        Ok(LaminarSimpleLaplacianScheme::GaussLinearOrthogonal)
    } else if scheme_token_is(&found, 2, "uncorrected") {
        Ok(LaminarSimpleLaplacianScheme::GaussLinearUncorrected)
    } else {
        let mut message = "unsupported laminar SIMPLE laplacian correction '".to_string();
        message.append(found[2].as_str());
        message.append("' in scheme '");
        message.append(value);
        message.append("'");
        Err(message)
    }
}

/// Whether the words of a scheme are these, `bounded` in front aside.
pub open spec fn says_words(value: Seq<char>, wanted: Seq<Seq<char>>) -> bool {
    let found = scheme_words(value);
    found == wanted || (found.len() > 0 && found[0] == "bounded"@ && found.skip(1) == wanted)
}

/// A scheme is taken for what its words say and for nothing else: the gradient is
/// linear, the convection upwind or linear upwind, the interpolation linear, and the
/// normal gradient corrected, orthogonal or uncorrected.
pub proof fn schemes_are_what_their_words_say(value: Seq<char>)
    ensures
        gradient_scheme(value) is Ok <==> scheme_words(value) == seq!["gauss"@, "linear"@],
        convection_scheme(value) == Ok::<LaminarSimpleConvectionScheme, Seq<char>>(
            LaminarSimpleConvectionScheme::GaussUpwind,
        ) ==> says_words(value, seq!["gauss"@, "upwind"@]),
        convection_scheme(value) == Ok::<LaminarSimpleConvectionScheme, Seq<char>>(
            LaminarSimpleConvectionScheme::GaussLinearUpwind,
        ) ==> ({
            let found = unbounded(scheme_words(value));
            found.len() >= 2 && found[0] == "gauss"@ && found[1] == "linearupwind"@
        }),
        interpolation_scheme(value) is Ok <==> scheme_words(value) == seq!["linear"@],
        match sn_grad_scheme(value) {
            Ok(LaminarSimpleSnGradScheme::Corrected) => scheme_words(value) == seq!["corrected"@],
            Ok(LaminarSimpleSnGradScheme::Orthogonal) => scheme_words(value) == seq!["orthogonal"@],
            Ok(LaminarSimpleSnGradScheme::Uncorrected) => scheme_words(value)
                == seq!["uncorrected"@],
            Err(_) => scheme_words(value) != seq!["corrected"@] && scheme_words(value)
                != seq!["orthogonal"@] && scheme_words(value) != seq!["uncorrected"@],
        },
{
    let found = scheme_words(value);
    if two_words(found, "gauss"@, "linear"@) {
        assert(found =~= seq!["gauss"@, "linear"@]);
    }
    if two_words(unbounded(found), "gauss"@, "upwind"@) {
        assert(unbounded(found) =~= seq!["gauss"@, "upwind"@]);
    }
    if one_word(found, "linear"@) {
        assert(found =~= seq!["linear"@]);
    }
    if one_word(found, "corrected"@) {
        assert(found =~= seq!["corrected"@]);
    }
    if one_word(found, "orthogonal"@) {
        assert(found =~= seq!["orthogonal"@]);
    }
    if one_word(found, "uncorrected"@) {
        assert(found =~= seq!["uncorrected"@]);
    }
}

/// A diffusion scheme without a word of its own for the correction has the one of the
/// normal gradient; one with such a word has that.
pub proof fn correction_comes_from_the_normal_gradient(
    value: Seq<char>,
    sn_grad: LaminarSimpleSnGradScheme,
)
    requires
        laplacian_scheme(value, sn_grad) is Ok,
    ensures
        ({
            let found = unbounded(scheme_words(value));
            let scheme = laplacian_scheme(value, sn_grad)->Ok_0;
            &&& 2 <= found.len() <= 3
            &&& found[0] == "gauss"@
            &&& found[1] == "linear"@
            &&& found.len() == 2 ==> match sn_grad {
                LaminarSimpleSnGradScheme::Corrected => scheme
                    == LaminarSimpleLaplacianScheme::GaussLinearCorrected,
                LaminarSimpleSnGradScheme::Orthogonal => scheme
                    == LaminarSimpleLaplacianScheme::GaussLinearOrthogonal,
                LaminarSimpleSnGradScheme::Uncorrected => scheme
                    == LaminarSimpleLaplacianScheme::GaussLinearUncorrected,
            }
            &&& found.len() == 3 ==> match scheme {
                LaminarSimpleLaplacianScheme::GaussLinearCorrected => found[2] == "corrected"@,
                LaminarSimpleLaplacianScheme::GaussLinearOrthogonal => found[2] == "orthogonal"@,
                LaminarSimpleLaplacianScheme::GaussLinearUncorrected => found[2] == "uncorrected"@,
            }
        }),
{
}

} // verus!
