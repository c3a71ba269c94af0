//! System prompts per mode, denominational lens and depth.
//!
//! A built-in prompt can be replaced by a user file; the lookup chain is
//! `<mode>.<lens>.md`, then `<mode>.md`, then `<lens>.md`.
use vstd::prelude::*;
use vstd::string::StringExecFns;

use crate::ai::{lens_name_pt, lens_slug, mode_name_pt, mode_slug, Denomination, StudyDepth, StudyMode};
use crate::model::Lang;
use crate::text::{decimal, join, join_strings, push_decimal};

verus! {

/// A section of a mode's blueprint (a heading the model must produce).
pub struct SectionSpec {
    /// Stable slug of the section.
    pub key: &'static str,
    /// Portuguese heading (rendered as `## <heading>`).
    pub heading_pt: &'static str,
}

/// `(key, heading)` of the sections the model must produce for `mode`, in order.
pub open spec fn blueprint(mode: StudyMode) -> Seq<(Seq<char>, Seq<char>)> {
    match mode {
        StudyMode::Academic => seq![("texto-traducao"@, "Texto e tradução"@), ("critica-textual"@, "Crítica textual"@), ("analise-lexical"@, "Análise lexical"@), ("contexto"@, "Contexto histórico-literário"@), ("estrutura"@, "Estrutura e argumento"@), ("interpretacao"@, "História da interpretação"@), ("sintese"@, "Síntese teológica"@)],
        StudyMode::Devotional => seq![("mensagem"@, "Mensagem central"@), ("contexto"@, "Contexto breve"@), ("aplicacao"@, "Aplicação para a vida"@), ("meditacao"@, "Perguntas para meditação"@), ("oracao"@, "Oração"@)],
        StudyMode::Introductory => seq![("do-que-trata"@, "Do que se trata"@), ("quem-quando"@, "Quem, quando, para quem"@), ("termos"@, "Termos explicados"@), ("ideia"@, "Ideia principal"@)],
        StudyMode::Sermon => seq![("tema"@, "Tema e proposição"@), ("esboco"@, "Esboço (pontos principais)"@), ("ilustracoes"@, "Ilustrações e aplicação"@), ("discussao"@, "Perguntas para discussão"@), ("apelo"@, "Apelo e conclusão"@)],
    }
}

/// Sections the model must produce for `mode`, in order (the apparatus of
/// the academic mode is generated from citations, never by the model).
pub fn section_blueprint(mode: StudyMode) -> (r: &'static [SectionSpec])
    ensures
        r@.map_values(|s: SectionSpec| (s.key@, s.heading_pt@)) == blueprint(mode),
{
    let r: &'static [SectionSpec] = match mode {
        StudyMode::Academic => &[SectionSpec { key: "texto-traducao", heading_pt: "Texto e tradução" }, SectionSpec { key: "critica-textual", heading_pt: "Crítica textual" }, SectionSpec { key: "analise-lexical", heading_pt: "Análise lexical" }, SectionSpec { key: "contexto", heading_pt: "Contexto histórico-literário" }, SectionSpec { key: "estrutura", heading_pt: "Estrutura e argumento" }, SectionSpec { key: "interpretacao", heading_pt: "História da interpretação" }, SectionSpec { key: "sintese", heading_pt: "Síntese teológica" }],
        StudyMode::Devotional => &[SectionSpec { key: "mensagem", heading_pt: "Mensagem central" }, SectionSpec { key: "contexto", heading_pt: "Contexto breve" }, SectionSpec { key: "aplicacao", heading_pt: "Aplicação para a vida" }, SectionSpec { key: "meditacao", heading_pt: "Perguntas para meditação" }, SectionSpec { key: "oracao", heading_pt: "Oração" }],
        StudyMode::Introductory => &[SectionSpec { key: "do-que-trata", heading_pt: "Do que se trata" }, SectionSpec { key: "quem-quando", heading_pt: "Quem, quando, para quem" }, SectionSpec { key: "termos", heading_pt: "Termos explicados" }, SectionSpec { key: "ideia", heading_pt: "Ideia principal" }],
        StudyMode::Sermon => &[SectionSpec { key: "tema", heading_pt: "Tema e proposição" }, SectionSpec { key: "esboco", heading_pt: "Esboço (pontos principais)" }, SectionSpec { key: "ilustracoes", heading_pt: "Ilustrações e aplicação" }, SectionSpec { key: "discussao", heading_pt: "Perguntas para discussão" }, SectionSpec { key: "apelo", heading_pt: "Apelo e conclusão" }],
    };
    assert(r@.map_values(|s: SectionSpec| (s.key@, s.heading_pt@)) =~= blueprint(mode));
    r
}

pub open spec fn mode_directive_text(x: StudyMode) -> Seq<char> {
    match x {
        StudyMode::Academic => "MODO ACADÊMICO: produza uma exegese rigorosa e fundamentada, em tom acadêmico e sóbrio. Toda afirmação lexical (palavra no original, número de Strong, sentido) DEVE apoiar-se em dados fornecidos no contexto; se não houver base fornecida, diga explicitamente que não há, e NÃO invente. Sem devocional nem aplicação pastoral."@,
        StudyMode::Devotional => "MODO DEVOCIONAL: tom caloroso e pessoal. Foque no sentido para a vida e na resposta do coração; evite jargão técnico e línguas originais."@,
        StudyMode::Introductory => "MODO INTRODUTÓRIO: para quem tem primeiro contato com a passagem (ou com a Bíblia). Linguagem simples, explique todo termo difícil, dê a visão de conjunto; sem jargão."@,
        StudyMode::Sermon => "MODO PREGAÇÃO/ENSINO: organize a passagem para pregar ou ensinar — proposição clara, pontos principais, ilustrações e aplicação; tom direto e comunicável."@,
    }
}

/// Role and tone directive of a mode, placed before the structure.
pub fn mode_directive(x: StudyMode) -> (r: &'static str)
    ensures
        r@ == mode_directive_text(x),
{
    match x {
        StudyMode::Academic => "MODO ACADÊMICO: produza uma exegese rigorosa e fundamentada, em tom acadêmico e sóbrio. Toda afirmação lexical (palavra no original, número de Strong, sentido) DEVE apoiar-se em dados fornecidos no contexto; se não houver base fornecida, diga explicitamente que não há, e NÃO invente. Sem devocional nem aplicação pastoral.",
        StudyMode::Devotional => "MODO DEVOCIONAL: tom caloroso e pessoal. Foque no sentido para a vida e na resposta do coração; evite jargão técnico e línguas originais.",
        StudyMode::Introductory => "MODO INTRODUTÓRIO: para quem tem primeiro contato com a passagem (ou com a Bíblia). Linguagem simples, explique todo termo difícil, dê a visão de conjunto; sem jargão.",
        StudyMode::Sermon => "MODO PREGAÇÃO/ENSINO: organize a passagem para pregar ou ensinar — proposição clara, pontos principais, ilustrações e aplicação; tom direto e comunicável.",
    }
}

pub open spec fn language_line_text(x: Lang) -> Seq<char> {
    match x {
        Lang::Pt => "Responda inteiramente em português."@,
        Lang::En => "Respond entirely in English."@,
    }
}

/// Instruction on the answer language.
pub fn language_line(x: Lang) -> (r: &'static str)
    ensures
        r@ == language_line_text(x),
{
    match x {
        Lang::Pt => "Responda inteiramente em português.",
        Lang::En => "Respond entirely in English.",
    }
}

pub open spec fn lens_description_text(x: Denomination) -> Seq<char> {
    match x {
        Denomination::Baptist => "Tradição BATISTA: autoridade final das Escrituras (sola scriptura), salvação pela graça mediante a fé, sacerdócio de todos os crentes, batismo de crentes por imersão (não pedobatismo), autonomia da igreja local e separação igreja-estado."@,
        Denomination::Presbyterian => "Tradição PRESBITERIANA/REFORMADA: teologia da aliança (pactual), soberania de Deus, eleição e graça (cânones de Dort/TULIP), confissão de Westminster, batismo infantil como sinal da aliança e governo presbiteral."@,
        Denomination::Lutheran => "Tradição LUTERANA: justificação somente pela fé (sola fide), Lei e Evangelho como chave hermenêutica, presença real na Ceia, batismo regenerador, e as confissões do Livro de Concórdia."@,
        Denomination::Pentecostal => "Tradição PENTECOSTAL: batismo no Espírito Santo com evidência de dons (incl. línguas), atualidade dos dons espirituais (continuísmo), ênfase em cura e experiência, e leitura restauracionista de Atos."@,
        Denomination::Catholic => "Tradição CATÓLICA ROMANA: Escritura e Tradição sob o Magistério, sete sacramentos, transubstanciação, papel de Maria e dos santos, e a leitura segundo o Catecismo da Igreja Católica."@,
        Denomination::Orthodox => "Tradição ORTODOXA ORIENTAL: Sagrada Tradição e os sete concílios ecumênicos, teose (divinização), interpretação patrística, mistérios (sacramentos) e a vida litúrgica como contexto de leitura."@,
    }
}

/// Hermeneutic distinctives of a tradition, in Portuguese.
pub fn lens_description(x: Denomination) -> (r: &'static str)
    ensures
        r@ == lens_description_text(x),
{
    match x {
        Denomination::Baptist => "Tradição BATISTA: autoridade final das Escrituras (sola scriptura), salvação pela graça mediante a fé, sacerdócio de todos os crentes, batismo de crentes por imersão (não pedobatismo), autonomia da igreja local e separação igreja-estado.",
        Denomination::Presbyterian => "Tradição PRESBITERIANA/REFORMADA: teologia da aliança (pactual), soberania de Deus, eleição e graça (cânones de Dort/TULIP), confissão de Westminster, batismo infantil como sinal da aliança e governo presbiteral.",
        Denomination::Lutheran => "Tradição LUTERANA: justificação somente pela fé (sola fide), Lei e Evangelho como chave hermenêutica, presença real na Ceia, batismo regenerador, e as confissões do Livro de Concórdia.",
        Denomination::Pentecostal => "Tradição PENTECOSTAL: batismo no Espírito Santo com evidência de dons (incl. línguas), atualidade dos dons espirituais (continuísmo), ênfase em cura e experiência, e leitura restauracionista de Atos.",
        Denomination::Catholic => "Tradição CATÓLICA ROMANA: Escritura e Tradição sob o Magistério, sete sacramentos, transubstanciação, papel de Maria e dos santos, e a leitura segundo o Catecismo da Igreja Católica.",
        Denomination::Orthodox => "Tradição ORTODOXA ORIENTAL: Sagrada Tradição e os sete concílios ecumênicos, teose (divinização), interpretação patrística, mistérios (sacramentos) e a vida litúrgica como contexto de leitura.",
    }
}

pub open spec fn depth_guidance_text(x: StudyDepth) -> Seq<char> {
    match x {
        StudyDepth::Overview => "Profundidade: VISÃO GERAL. Resuma o sentido principal, o contexto imediato e uma aplicação prática, de forma acessível."@,
        StudyDepth::Exegetical => "Profundidade: EXEGÉTICA. Analise contexto histórico-literário, estrutura do trecho, gênero, conexões canônicas e termos-chave; fundamente cada afirmação."@,
        StudyDepth::WordStudy => "Profundidade: ESTUDO DE PALAVRAS. Destaque termos no original (grego/hebraico) com transliteração e sentido, e como informam a interpretação."@,
    }
}

/// Guidance for a study depth.
pub fn depth_guidance(x: StudyDepth) -> (r: &'static str)
    ensures
        r@ == depth_guidance_text(x),
{
    match x {
        StudyDepth::Overview => "Profundidade: VISÃO GERAL. Resuma o sentido principal, o contexto imediato e uma aplicação prática, de forma acessível.",
        StudyDepth::Exegetical => "Profundidade: EXEGÉTICA. Analise contexto histórico-literário, estrutura do trecho, gênero, conexões canônicas e termos-chave; fundamente cada afirmação.",
        StudyDepth::WordStudy => "Profundidade: ESTUDO DE PALAVRAS. Destaque termos no original (grego/hebraico) com transliteração e sentido, e como informam a interpretação.",
    }
}

/// One numbered heading line: `"{i}. ## {heading}"`.
pub open spec fn heading_line(i: nat, h: Seq<char>) -> Seq<char> {
    decimal(i) + ". ## "@ + h
}

pub open spec fn heading_lines(hs: Seq<(Seq<char>, Seq<char>)>) -> Seq<Seq<char>> {
    Seq::new(hs.len(), |i: int| heading_line((i + 1) as nat, hs[i].1))
}

/// The numbered list of the mode's section headings, one per line.
pub open spec fn blueprint_headings_text(mode: StudyMode) -> Seq<char> {
    join(heading_lines(blueprint(mode)), "\n"@)
}

pub fn blueprint_headings(mode: StudyMode) -> (r: String)
    ensures
        r@ == blueprint_headings_text(mode),
{
    let secs = section_blueprint(mode);
    let ghost bp = blueprint(mode);
    let mut lines: Vec<String> = Vec::new();
    let mut i: usize = 0;
    while i < secs.len()
        invariant
            i <= secs.len(),
            secs@.map_values(|s: SectionSpec| (s.key@, s.heading_pt@)) == bp,
            lines@.map_values(|p: String| p@) == heading_lines(bp).take(i as int),
        decreases secs.len() - i,
    {
        let mut l = String::new();
        push_decimal(&mut l, (i + 1) as u64);
        l.append(". ## ");
        l.append(secs[i].heading_pt);
        assert(bp[i as int].1 == secs@[i as int].heading_pt@);
        assert(l@ =~= heading_line((i + 1) as nat, bp[i as int].1));
        let ghost before = lines@.map_values(|p: String| p@);
        lines.push(l);
        assert(heading_lines(bp).take((i + 1) as int) =~= heading_lines(bp).take(i as int).push(
            heading_line((i + 1) as nat, bp[i as int].1),
        ));
        assert(lines@.map_values(|p: String| p@) =~= heading_lines(bp).take((i + 1) as int));
        i = i + 1;
    }
    assert(heading_lines(bp).take(i as int) =~= heading_lines(bp));
    join_strings(lines.as_slice(), "\n")
}

/// The built-in system prompt: rules, mode directive, structure, lens and depth.
pub open spec fn builtin_text(mode: StudyMode, lens: Denomination, depth: StudyDepth, lang: Lang) -> Seq<char> {
    "Você é um assistente de estudo bíblico ("@ + mode_name_pt(mode) + ").\n\nREGRAS OBRIGATÓRIAS:\n1. Cite os versículos por referência (ex.: Ef 2.8) ao fundamentar afirmações.\n2. Separe claramente o TEXTO BÍBLICO citado da sua INTERPRETAÇÃO.\n3. Deixe explícito que esta é a leitura da tradição "@ + lens_name_pt(lens) + "; não a apresente como a única visão cristã.\n4. Quando houver divergência relevante entre tradições cristãs, sinalize-a.\n5. NÃO invente versículos, referências, números de Strong ou citações.\n6. "@ + language_line_text(lang) + "\n\n"@ + mode_directive_text(mode) + "\n\nESTRUTURA OBRIGATÓRIA — produza EXATAMENTE estes cabeçalhos de seção (cada um numa linha começando por `## `), nesta ordem, sem texto antes do primeiro cabeçalho e sem seções extras:\n"@ + blueprint_headings_text(mode) + "\n\n"@ + lens_description_text(lens) + "\n\n"@ + depth_guidance_text(depth) + ""@
}

pub fn builtin(mode: StudyMode, lens: Denomination, depth: StudyDepth, lang: Lang) -> (r: String)
    ensures
        r@ == builtin_text(mode, lens, depth, lang),
{
    let mut s = String::new();
    s.append("Você é um assistente de estudo bíblico (");
    s.append(mode.name_pt());
    s.append(").\n\nREGRAS OBRIGATÓRIAS:\n1. Cite os versículos por referência (ex.: Ef 2.8) ao fundamentar afirmações.\n2. Separe claramente o TEXTO BÍBLICO citado da sua INTERPRETAÇÃO.\n3. Deixe explícito que esta é a leitura da tradição ");
    s.append(lens.name_pt());
    s.append("; não a apresente como a única visão cristã.\n4. Quando houver divergência relevante entre tradições cristãs, sinalize-a.\n5. NÃO invente versículos, referências, números de Strong ou citações.\n6. ");
    s.append(language_line(lang));
    s.append("\n\n");
    s.append(mode_directive(mode));
    s.append("\n\nESTRUTURA OBRIGATÓRIA — produza EXATAMENTE estes cabeçalhos de seção (cada um numa linha começando por `## `), nesta ordem, sem texto antes do primeiro cabeçalho e sem seções extras:\n");
    let h = blueprint_headings(mode);
    s.append(h.as_str());
    s.append("\n\n");
    s.append(lens_description(lens));
    s.append("\n\n");
    s.append(depth_guidance(depth));
    s.append("");
    s
}

pub open spec fn ask_system_text(lang: Lang) -> Seq<char> {
    "Você é um assistente de estudo bíblico. Responda à pergunta ancorando-se SOMENTE no texto e nas referências fornecidas; cite os versículos pertinentes; se a resposta não estiver no contexto, diga isso claramente; NÃO invente versículos ou referências. "@ + language_line_text(lang)
}

/// System prompt for free questions anchored on references (RAG).
pub fn ask_system_prompt(lang: Lang) -> (r: String)
    ensures
        r@ == ask_system_text(lang),
{
    let mut s = String::new();
    s.append("Você é um assistente de estudo bíblico. Responda à pergunta ancorando-se SOMENTE no texto e nas referências fornecidas; cite os versículos pertinentes; se a resposta não estiver no contexto, diga isso claramente; NÃO invente versículos ou referências. ");
    s.append(language_line(lang));
    s
}

pub open spec fn followup_system_text(mode: StudyMode, lens: Denomination, lang: Lang) -> Seq<char> {
    "Você é um assistente de estudo bíblico continuando um estudo "@ + mode_name_pt(mode) + " sob a lente "@ + lens_name_pt(lens) + ". Mantenha essa voz hermenêutica e aprofunde a partir do estudo já apresentado no histórico. Ancore-se no texto e nas referências fornecidas; cite os versículos; se algo não estiver no contexto, diga isso; NÃO invente versículos ou referências. "@ + language_line_text(lang) + ""@
}

/// System prompt of a follow-up inside a study: keeps the mode and the lens.
pub fn study_followup_system_prompt(mode: StudyMode, lens: Denomination, lang: Lang) -> (r: String)
    ensures
        r@ == followup_system_text(mode, lens, lang),
{
    let mut s = String::new();
    s.append("Você é um assistente de estudo bíblico continuando um estudo ");
    s.append(mode.name_pt());
    s.append(" sob a lente ");
    s.append(lens.name_pt());
    s.append(". Mantenha essa voz hermenêutica e aprofunde a partir do estudo já apresentado no histórico. Ancore-se no texto e nas referências fornecidas; cite os versículos; se algo não estiver no contexto, diga isso; NÃO invente versículos ou referências. ");
    s.append(language_line(lang));
    s.append("");
    s
}

/// Override file names, in lookup order: `<mode>.<lens>.md`, `<mode>.md`, `<lens>.md`.
pub fn override_names(mode: StudyMode, lens: Denomination) -> (r: Vec<String>)
    ensures
        r@.map_values(|s: String| s@) == seq![
            mode_slug(mode) + "."@ + lens_slug(lens) + ".md"@,
            mode_slug(mode) + ".md"@,
            lens_slug(lens) + ".md"@,
        ],
{
    let mut a = String::new();
    a.append(mode.slug());
    a.append(".");
    a.append(lens.slug());
    a.append(".md");
    let mut b = String::new();
    b.append(mode.slug());
    b.append(".md");
    let mut c = String::new();
    c.append(lens.slug());
    c.append(".md");
    let r = vec![a, b, c];
    assert(r@.map_values(|s: String| s@) =~= seq![
        mode_slug(mode) + "."@ + lens_slug(lens) + ".md"@,
        mode_slug(mode) + ".md"@,
        lens_slug(lens) + ".md"@,
    ]);
    r
}

/// First present override, in lookup order.
pub open spec fn first_override(found: Seq<Option<String>>) -> Option<Seq<char>>
    decreases found.len(),
{
    if found.len() == 0 {
        None
    } else {
        match found[0] {
            Some(s) => Some(s@),
            None => first_override(found.drop_first()),
        }
    }
}

/// The system prompt given the contents of the override files found (one
/// entry per name of [`override_names`], `None` for a missing file): the first
/// present file replaces the built-in prompt.
pub fn system_prompt_from(
    mode: StudyMode,
    lens: Denomination,
    depth: StudyDepth,
    lang: Lang,
    found: &Vec<Option<String>>,
) -> (r: String)
    ensures
        r@ == (match first_override(found@) {
            Some(s) => s,
            None => builtin_text(mode, lens, depth, lang),
        }),
{
    let mut i: usize = 0;
    assert(found@.skip(0) =~= found@);
    while i < found.len()
        invariant
            i <= found.len(),
            first_override(found@) == first_override(found@.skip(i as int)),
        decreases found.len() - i,
    {
        assert(found@.skip(i as int)[0] == found@[i as int]);
        match &found[i] {
            Some(s) => return crate::text::copy_str(s.as_str()),
            None => {},
        }
        assert(found@.skip(i as int).drop_first() =~= found@.skip(i + 1));
        i = i + 1;
    }
    builtin(mode, lens, depth, lang)
}

} // verus!
