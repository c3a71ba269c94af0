//! AI study layer (optional, bring-your-own-key): lenses, depths, modes, chat
//! messages and the provider interface.
use vstd::prelude::*;
use vstd::string::StringExecFns;

use crate::text::{chars_of, eq_lit, lower_chars, lower_seq, string_of, trim, trim_chars, trim_end};

verus! {

/// Names accepted for `config set provider`.
pub fn providers() -> (r: Vec<&'static str>)
    ensures
        r@.map_values(|s: &str| s@) == seq!["anthropic"@, "openai"@, "ollama"@],
{
    let r = vec!["anthropic", "openai", "ollama"];
    assert(r@.map_values(|s: &str| s@) =~= seq!["anthropic"@, "openai"@, "ollama"@]);
    r
}

/// Denominational lens applied to a study.
#[derive(Debug, Clone, Copy, PartialEq, Eq, Structural)]
pub enum Denomination {
    Baptist,
    Presbyterian,
    Lutheran,
    Pentecostal,
    Catholic,
    Orthodox,
}

pub open spec fn lens_slug(d: Denomination) -> Seq<char> {
    match d {
        Denomination::Baptist => "baptist"@,
        Denomination::Presbyterian => "presbyterian"@,
        Denomination::Lutheran => "lutheran"@,
        Denomination::Pentecostal => "pentecostal"@,
        Denomination::Catholic => "catholic"@,
        Denomination::Orthodox => "orthodox"@,
    }
}

pub open spec fn lens_name_pt(d: Denomination) -> Seq<char> {
    match d {
        Denomination::Baptist => "Batista"@,
        Denomination::Presbyterian => "Presbiteriana"@,
        Denomination::Lutheran => "Luterana"@,
        Denomination::Pentecostal => "Pentecostal"@,
        Denomination::Catholic => "Católica"@,
        Denomination::Orthodox => "Ortodoxa"@,
    }
}

/// The lens a trimmed, ASCII-lowercased key names.
pub open spec fn lens_for_key(k: Seq<char>) -> Option<Denomination> {
    if k == "baptist"@ || k == "batista"@ {
        Some(Denomination::Baptist)
    } else if k == "presbyterian"@ || k == "presbiteriana"@ || k == "reformada"@ || k
        == "reformed"@ {
        Some(Denomination::Presbyterian)
    } else if k == "lutheran"@ || k == "luterana"@ {
        Some(Denomination::Lutheran)
    } else if k == "pentecostal"@ {
        Some(Denomination::Pentecostal)
    } else if k == "catholic"@ || k == "católica"@ || k == "catolica"@ {
        Some(Denomination::Catholic)
    } else if k == "orthodox"@ || k == "ortodoxa"@ {
        Some(Denomination::Orthodox)
    } else {
        None
    }
}

pub open spec fn all_lenses() -> Seq<Denomination> {
    seq![
        Denomination::Baptist,
        Denomination::Presbyterian,
        Denomination::Lutheran,
        Denomination::Pentecostal,
        Denomination::Catholic,
        Denomination::Orthodox,
    ]
}

impl Denomination {
    /// Stable slug (file names and prompt overrides).
    pub fn slug(self) -> (r: &'static str)
        ensures
            r@ == lens_slug(self),
    {
        match self {
            Denomination::Baptist => "baptist",
            Denomination::Presbyterian => "presbyterian",
            Denomination::Lutheran => "lutheran",
            Denomination::Pentecostal => "pentecostal",
            Denomination::Catholic => "catholic",
            Denomination::Orthodox => "orthodox",
        }
    }

    /// Portuguese display name.
    pub fn name_pt(self) -> (r: &'static str)
        ensures
            r@ == lens_name_pt(self),
    {
        match self {
            Denomination::Baptist => "Batista",
            Denomination::Presbyterian => "Presbiteriana",
            Denomination::Lutheran => "Luterana",
            Denomination::Pentecostal => "Pentecostal",
            Denomination::Catholic => "Católica",
            Denomination::Orthodox => "Ortodoxa",
        }
    }

    /// Every lens, in display order.
    pub fn all() -> (r: [Denomination; 6])
        ensures
            r@ == all_lenses(),
    {
        let r = [
            Denomination::Baptist,
            Denomination::Presbyterian,
            Denomination::Lutheran,
            Denomination::Pentecostal,
            Denomination::Catholic,
            Denomination::Orthodox,
        ];
        assert(r@ =~= all_lenses());
        r
    }

    /// Parses a lens name in PT or EN (trimmed, ASCII case-insensitive).
    pub fn parse(s: &str) -> (r: Result<Denomination, AiError>)
        ensures
            match lens_for_key(lower_seq(trim(s@))) {
                Some(d) => r == Ok::<Denomination, AiError>(d),
                None => r matches Err(AiError::UnknownLens(e)) && e@ == lower_seq(trim(s@)),
            },
    {
        let k = lower_chars(trim_chars(chars_of(s).as_slice()).as_slice());
        let ks = k.as_slice();
        if eq_lit(ks, "baptist") || eq_lit(ks, "batista") {
            Ok(Denomination::Baptist)
        } else if eq_lit(ks, "presbyterian") || eq_lit(ks, "presbiteriana") || eq_lit(
            ks,
            "reformada",
        ) || eq_lit(ks, "reformed") {
            Ok(Denomination::Presbyterian)
        } else if eq_lit(ks, "lutheran") || eq_lit(ks, "luterana") {
            Ok(Denomination::Lutheran)
        } else if eq_lit(ks, "pentecostal") {
            Ok(Denomination::Pentecostal)
        } else if eq_lit(ks, "catholic") || eq_lit(ks, "católica") || eq_lit(ks, "catolica") {
            Ok(Denomination::Catholic)
        } else if eq_lit(ks, "orthodox") || eq_lit(ks, "ortodoxa") {
            Ok(Denomination::Orthodox)
        } else {
            Err(AiError::UnknownLens(string_of(ks)))
        }
    }
}

impl std::str::FromStr for Denomination {
    type Err = AiError;

    fn from_str(s: &str) -> Result<Denomination, AiError> {
        Denomination::parse(s)
    }
}

/// Depth of a study.
#[derive(Debug, Clone, Copy, PartialEq, Eq, Structural)]
pub enum StudyDepth {
    Overview,
    Exegetical,
    WordStudy,
}

pub open spec fn depth_name_pt(d: StudyDepth) -> Seq<char> {
    match d {
        StudyDepth::Overview => "visão geral"@,
        StudyDepth::Exegetical => "exegético"@,
        StudyDepth::WordStudy => "estudo de palavras"@,
    }
}

pub open spec fn depth_for_key(k: Seq<char>) -> Option<StudyDepth> {
    if k == "overview"@ || k == "geral"@ || k == "visao"@ {
        Some(StudyDepth::Overview)
    } else if k == "exegetical"@ || k == "exegetico"@ || k == "exegético"@ {
        Some(StudyDepth::Exegetical)
    } else if k == "wordstudy"@ || k == "word-study"@ || k == "palavras"@ {
        Some(StudyDepth::WordStudy)
    } else {
        None
    }
}

/// The next depth of a deepening: Overview → Exegetical → Word study, and
/// Word study stays.
pub open spec fn deeper_depth(d: StudyDepth) -> StudyDepth {
    match d {
        StudyDepth::Overview => StudyDepth::Exegetical,
        StudyDepth::Exegetical => StudyDepth::WordStudy,
        StudyDepth::WordStudy => StudyDepth::WordStudy,
    }
}

impl StudyDepth {
    /// One level deeper: Overview → Exegetical → Word study, which stays.
    pub fn deeper(self) -> (r: StudyDepth)
        ensures
            r == deeper_depth(self),
    {
        match self {
            StudyDepth::Overview => StudyDepth::Exegetical,
            StudyDepth::Exegetical => StudyDepth::WordStudy,
            StudyDepth::WordStudy => StudyDepth::WordStudy,
        }
    }

    /// Portuguese display name.
    pub fn name_pt(self) -> (r: &'static str)
        ensures
            r@ == depth_name_pt(self),
    {
        match self {
            StudyDepth::Overview => "visão geral",
            StudyDepth::Exegetical => "exegético",
            StudyDepth::WordStudy => "estudo de palavras",
        }
    }

    /// Parses a depth name in PT or EN (trimmed, ASCII case-insensitive).
    pub fn parse(s: &str) -> (r: Result<StudyDepth, AiError>)
        ensures
            match depth_for_key(lower_seq(trim(s@))) {
                Some(d) => r == Ok::<StudyDepth, AiError>(d),
                None => r matches Err(AiError::UnknownDepth(e)) && e@ == lower_seq(trim(s@)),
            },
    {
        let k = lower_chars(trim_chars(chars_of(s).as_slice()).as_slice());
        let ks = k.as_slice();
        if eq_lit(ks, "overview") || eq_lit(ks, "geral") || eq_lit(ks, "visao") {
            Ok(StudyDepth::Overview)
        } else if eq_lit(ks, "exegetical") || eq_lit(ks, "exegetico") || eq_lit(ks, "exegético") {
            Ok(StudyDepth::Exegetical)
        } else if eq_lit(ks, "wordstudy") || eq_lit(ks, "word-study") || eq_lit(ks, "palavras") {
            Ok(StudyDepth::WordStudy)
        } else {
            Err(AiError::UnknownDepth(string_of(ks)))
        }
    }
}

impl std::str::FromStr for StudyDepth {
    type Err = AiError;

    fn from_str(s: &str) -> Result<StudyDepth, AiError> {
        StudyDepth::parse(s)
    }
}

/// Study mode: shapes the structure and tone of a study.
#[derive(Debug, Clone, Copy, PartialEq, Eq, Structural)]
pub enum StudyMode {
    Academic,
    Devotional,
    Introductory,
    Sermon,
}

pub open spec fn mode_slug(m: StudyMode) -> Seq<char> {
    match m {
        StudyMode::Academic => "academic"@,
        StudyMode::Devotional => "devotional"@,
        StudyMode::Introductory => "introductory"@,
        StudyMode::Sermon => "sermon"@,
    }
}

pub open spec fn mode_name_pt(m: StudyMode) -> Seq<char> {
    match m {
        StudyMode::Academic => "Acadêmico"@,
        StudyMode::Devotional => "Devocional"@,
        StudyMode::Introductory => "Introdutório"@,
        StudyMode::Sermon => "Pregação/Ensino"@,
    }
}

pub open spec fn mode_for_key(k: Seq<char>) -> Option<StudyMode> {
    if k == "academic"@ || k == "academico"@ || k == "acadêmico"@ {
        Some(StudyMode::Academic)
    } else if k == "devotional"@ || k == "devocional"@ {
        Some(StudyMode::Devotional)
    } else if k == "introductory"@ || k == "introdutorio"@ || k == "introdutório"@ {
        Some(StudyMode::Introductory)
    } else if k == "sermon"@ || k == "pregacao"@ || k == "pregação"@ {
        Some(StudyMode::Sermon)
    } else {
        None
    }
}

impl StudyMode {
    /// Stable slug.
    pub fn slug(self) -> (r: &'static str)
        ensures
            r@ == mode_slug(self),
    {
        match self {
            StudyMode::Academic => "academic",
            StudyMode::Devotional => "devotional",
            StudyMode::Introductory => "introductory",
            StudyMode::Sermon => "sermon",
        }
    }

    /// Portuguese display name.
    pub fn name_pt(self) -> (r: &'static str)
        ensures
            r@ == mode_name_pt(self),
    {
        match self {
            StudyMode::Academic => "Acadêmico",
            StudyMode::Devotional => "Devocional",
            StudyMode::Introductory => "Introdutório",
            StudyMode::Sermon => "Pregação/Ensino",
        }
    }

    /// The verified original-language lexicon goes into the prompt (Academic
    /// and Sermon).
    pub fn wants_lexical(self) -> (r: bool)
        ensures
            r == (self == StudyMode::Academic || self == StudyMode::Sermon),
    {
        match self {
            StudyMode::Academic | StudyMode::Sermon => true,
            _ => false,
        }
    }

    /// The study carries a scholarly apparatus of citations (Academic).
    pub fn emits_apparatus(self) -> (r: bool)
        ensures
            r == (self == StudyMode::Academic),
    {
        match self {
            StudyMode::Academic => true,
            _ => false,
        }
    }

    /// Every mode, in display order.
    pub fn all() -> (r: [StudyMode; 4])
        ensures
            r@ == seq![
                StudyMode::Academic,
                StudyMode::Devotional,
                StudyMode::Introductory,
                StudyMode::Sermon,
            ],
    {
        let r = [StudyMode::Academic, StudyMode::Devotional, StudyMode::Introductory, StudyMode::Sermon];
        assert(r@ =~= seq![
            StudyMode::Academic,
            StudyMode::Devotional,
            StudyMode::Introductory,
            StudyMode::Sermon,
        ]);
        r
    }

    /// Parses a mode name in PT or EN (trimmed, ASCII case-insensitive).
    pub fn parse(s: &str) -> (r: Option<StudyMode>)
        ensures
            r == mode_for_key(lower_seq(trim(s@))),
    {
        let k = lower_chars(trim_chars(chars_of(s).as_slice()).as_slice());
        let ks = k.as_slice();
        if eq_lit(ks, "academic") || eq_lit(ks, "academico") || eq_lit(ks, "acadêmico") {
            Some(StudyMode::Academic)
        } else if eq_lit(ks, "devotional") || eq_lit(ks, "devocional") {
            Some(StudyMode::Devotional)
        } else if eq_lit(ks, "introductory") || eq_lit(ks, "introdutorio") || eq_lit(
            ks,
            "introdutório",
        ) {
            Some(StudyMode::Introductory)
        } else if eq_lit(ks, "sermon") || eq_lit(ks, "pregacao") || eq_lit(ks, "pregação") {
            Some(StudyMode::Sermon)
        } else {
            None
        }
    }
}

/// Errors of the AI layer.
#[derive(Debug, PartialEq, Eq)]
pub enum AiError {
    /// No key configured for the provider.
    NoKey(String),
    /// No provider selected.
    NoProvider,
    /// Unknown provider.
    UnknownProvider(String),
    /// Unknown denominational lens.
    UnknownLens(String),
    /// Unknown depth.
    UnknownDepth(String),
    /// I/O error (message).
    Io(String),
    /// Network/HTTP error (message).
    Http(String),
    /// Unexpected provider response.
    BadResponse(String),
    /// Invalid secrets file (message).
    Toml(String),
    /// Secrets could not be serialized (message).
    TomlSer(String),
    /// Configuration directory unavailable.
    NoConfigDir,
}

/// The message shown for an error.
pub open spec fn error_text(e: AiError) -> Seq<char> {
    match e {
        AiError::NoKey(p) => "nenhuma chave para `"@ + p@ + "` — use `light config set-key "@ + p@
            + " <chave>`"@,
        AiError::NoProvider => "nenhum provedor de IA selecionado — use `light config set provider <nome>`"@,
        AiError::UnknownProvider(p) => "provedor desconhecido: `"@ + p@ + "` (use: anthropic, openai, ollama)"@,
        AiError::UnknownLens(x) => "lente desconhecida: `"@ + x@ + "`"@,
        AiError::UnknownDepth(x) => "profundidade desconhecida: `"@ + x@ + "`"@,
        AiError::Io(m) => "erro de I/O: "@ + m@,
        AiError::Http(m) => "erro de rede: "@ + m@,
        AiError::BadResponse(m) => "resposta inesperada do provedor: "@ + m@,
        AiError::Toml(m) => "secrets inválido: "@ + m@,
        AiError::TomlSer(m) => "erro ao serializar secrets: "@ + m@,
        AiError::NoConfigDir => "não foi possível determinar o diretório de configuração"@,
    }
}

impl AiError {
    /// The message shown for this error.
    pub fn message(&self) -> (r: String)
        ensures
            r@ == error_text(*self),
    {
        let mut s = String::new();
        match self {
            AiError::NoKey(p) => {
                s.append("nenhuma chave para `");
                s.append(p.as_str());
                s.append("` — use `light config set-key ");
                s.append(p.as_str());
                s.append(" <chave>`");
            },
            AiError::NoProvider => {
                s.append("nenhum provedor de IA selecionado — use `light config set provider <nome>`");
            },
            AiError::UnknownProvider(p) => {
                s.append("provedor desconhecido: `");
                s.append(p.as_str());
                s.append("` (use: anthropic, openai, ollama)");
            },
            AiError::UnknownLens(x) => {
                s.append("lente desconhecida: `");
                s.append(x.as_str());
                s.append("`");
            },
            AiError::UnknownDepth(x) => {
                s.append("profundidade desconhecida: `");
                s.append(x.as_str());
                s.append("`");
            },
            AiError::Io(m) => {
                s.append("erro de I/O: ");
                s.append(m.as_str());
            },
            AiError::Http(m) => {
                s.append("erro de rede: ");
                s.append(m.as_str());
            },
            AiError::BadResponse(m) => {
                s.append("resposta inesperada do provedor: ");
                s.append(m.as_str());
            },
            AiError::Toml(m) => {
                s.append("secrets inválido: ");
                s.append(m.as_str());
            },
            AiError::TomlSer(m) => {
                s.append("erro ao serializar secrets: ");
                s.append(m.as_str());
            },
            AiError::NoConfigDir => {
                s.append("não foi possível determinar o diretório de configuração");
            },
        }
        s
    }
}

/// Role of a message in a multi-turn conversation.
#[derive(Debug, Clone, Copy, PartialEq, Eq, Structural)]
pub enum ChatRole {
    User,
    Assistant,
}

impl ChatRole {
    /// Role string in the APIs' format.
    pub fn as_str(self) -> (r: &'static str)
        ensures
            r@ == (match self {
                ChatRole::User => "user"@,
                ChatRole::Assistant => "assistant"@,
            }),
    {
        match self {
            ChatRole::User => "user",
            ChatRole::Assistant => "assistant",
        }
    }
}

/// One turn of a conversation sent to a provider.
#[derive(Debug, Clone, PartialEq, Eq)]
pub struct ChatMessage {
    pub role: ChatRole,
    pub content: String,
}

pub open spec fn message_view(m: ChatMessage) -> (ChatRole, Seq<char>) {
    (m.role, m.content@)
}

pub open spec fn messages_view(ms: Seq<ChatMessage>) -> Seq<(ChatRole, Seq<char>)> {
    ms.map_values(|m: ChatMessage| message_view(m))
}

/// A provider result, its answer taken as text (an error kept as it is).
pub open spec fn answer_view(r: Result<String, AiError>) -> Result<Seq<char>, AiError> {
    match r {
        Ok(s) => Ok(s@),
        Err(e) => Err(e),
    }
}

/// Chat interface of an LLM provider.
pub trait LlmProvider {
    /// Whether `answer` (a text, or an error) is something this provider may
    /// reply to `system` and `messages`.
    open spec fn may_answer(
        &self,
        system: Seq<char>,
        messages: Seq<(ChatRole, Seq<char>)>,
        answer: Result<Seq<char>, AiError>,
    ) -> bool {
        true
    }

    /// Whether this provider states its name and model: `name` then returns
    /// `name_view` and `model` returns `model_view`.
    open spec fn reports_names(&self) -> bool {
        false
    }

    /// The provider's name, where it is stated.
    open spec fn name_view(&self) -> Seq<char> {
        Seq::empty()
    }

    /// The provider's model, where it is stated.
    open spec fn model_view(&self) -> Seq<char> {
        Seq::empty()
    }

    /// Provider name.
    fn name(&self) -> (r: &str)
        ensures
            self.reports_names() ==> r@ == self.name_view(),
    ;

    /// Configured model.
    fn model(&self) -> (r: &str)
        ensures
            self.reports_names() ==> r@ == self.model_view(),
    ;

    /// Sends `system` + one user message.
    fn complete(&self, system: &str, user: &str) -> (r: Result<String, AiError>)
        ensures
            self.may_answer(system@, seq![(ChatRole::User, user@)], answer_view(r)),
    ;

    /// Multi-turn conversation.
    fn chat(&self, system: &str, messages: &[ChatMessage]) -> (r: Result<String, AiError>)
        ensures
            self.may_answer(system@, messages_view(messages@), answer_view(r)),
    ;

    /// Rough token estimate of a text (about 4 characters per token, rounded up).
    fn estimate_tokens(&self, text: &str) -> (r: usize)
        ensures
            r as int == (text@.len() + 3) / 4,
    {
        tokens_for(text)
    }
}

/// Speaker label of a role in a folded transcript.
pub open spec fn speaker(r: ChatRole) -> Seq<char> {
    match r {
        ChatRole::User => "Usuário"@,
        ChatRole::Assistant => "Assistente"@,
    }
}

/// `"{who}: {content}\n\n"` for every message, in order.
pub open spec fn transcript(ms: Seq<(ChatRole, Seq<char>)>) -> Seq<char>
    decreases ms.len(),
{
    if ms.len() == 0 {
        seq![]
    } else {
        transcript(ms.drop_last()) + speaker(ms.last().0) + ": "@ + ms.last().1 + "\n\n"@
    }
}

/// The history of a conversation folded into one user message (what a
/// provider without native multi-message support receives), right-trimmed.
pub fn fold_history(messages: &[ChatMessage]) -> (r: String)
    ensures
        r@ == trim_end(transcript(messages_view(messages@))),
{
    let ghost ms = messages_view(messages@);
    let mut user = String::new();
    let mut i: usize = 0;
    while i < messages.len()
        invariant
            i <= messages.len(),
            ms == messages_view(messages@),
            user@ == transcript(ms.take(i as int)),
        decreases messages.len() - i,
    {
        let m = &messages[i];
        match m.role {
            ChatRole::User => user.append("Usuário"),
            ChatRole::Assistant => user.append("Assistente"),
        }
        user.append(": ");
        user.append(m.content.as_str());
        user.append("\n\n");
        assert(ms.take((i + 1) as int).drop_last() =~= ms.take(i as int));
        assert(ms.take((i + 1) as int).last() == message_view(*m));
        i = i + 1;
    }
    assert(ms.take(messages.len() as int) =~= ms);
    let v = crate::text::trim_end_chars(chars_of(user.as_str()).as_slice());
    string_of(v.as_slice())
}

/// Rough token estimate (about 4 characters per token, rounded up).
fn tokens_for(text: &str) -> (r: usize)
    ensures
        r as int == (text@.len() + 3) / 4,
{
    let n = chars_of(text).len();
    n / 4 + if n % 4 == 0 {
        0
    } else {
        1
    }
}

/// Fake provider for tests and demos: always the same answer, no network.
pub struct MockLlmProvider {
    response: String,
}

impl MockLlmProvider {
    /// The canned answer.
    pub closed spec fn response(&self) -> Seq<char> {
        self.response@
    }

    /// Mock with the given answer.
    pub fn new(response: &str) -> (r: MockLlmProvider)
        ensures
            r.response() == response@,
    {
        MockLlmProvider { response: crate::text::copy_str(response) }
    }

    /// Mock with the default simulated interpretation.
    pub fn default_answer() -> (r: MockLlmProvider)
        ensures
            r.response() == "Interpretação simulada (provedor de teste). A passagem é citada acima a partir do texto local."@,
    {
        MockLlmProvider::new(
            "Interpretação simulada (provedor de teste). A passagem é citada acima a partir do texto local.",
        )
    }
}

impl LlmProvider for MockLlmProvider {
    open spec fn may_answer(
        &self,
        system: Seq<char>,
        messages: Seq<(ChatRole, Seq<char>)>,
        answer: Result<Seq<char>, AiError>,
    ) -> bool {
        answer == Ok::<Seq<char>, AiError>(self.response())
    }

    open spec fn reports_names(&self) -> bool {
        true
    }

    open spec fn name_view(&self) -> Seq<char> {
        "mock"@
    }

    open spec fn model_view(&self) -> Seq<char> {
        "mock-1"@
    }

    fn name(&self) -> (r: &str)
        ensures
            r@ == "mock"@,
    {
        "mock"
    }

    fn model(&self) -> (r: &str)
        ensures
            r@ == "mock-1"@,
    {
        "mock-1"
    }

    fn complete(&self, _system: &str, _user: &str) -> (r: Result<String, AiError>) {
        Ok(crate::text::copy_str(self.response.as_str()))
    }

    fn chat(&self, system: &str, messages: &[ChatMessage]) -> (r: Result<String, AiError>) {
        let user = fold_history(messages);
        self.complete(system, user.as_str())
    }
}

/// A lens slug is read back as that lens.
pub proof fn lemma_lens_slug_key(d: Denomination)
    ensures
        lower_seq(trim(lens_slug(d))) == lens_slug(d),
        lens_for_key(lens_slug(d)) == Some(d),
{
    reveal_strlit("baptist");
    reveal_strlit("batista");
    reveal_strlit("presbyterian");
    reveal_strlit("presbiteriana");
    reveal_strlit("reformada");
    reveal_strlit("reformed");
    reveal_strlit("lutheran");
    reveal_strlit("luterana");
    reveal_strlit("pentecostal");
    reveal_strlit("catholic");
    reveal_strlit("católica");
    reveal_strlit("catolica");
    reveal_strlit("orthodox");
    reveal_strlit("ortodoxa");
    let sl = lens_slug(d);
    crate::text::lemma_trim_plain(sl);
    assert(lower_seq(sl) =~= sl);
}

/// A mode slug is read back as that mode.
pub proof fn lemma_mode_slug_key(m: StudyMode)
    ensures
        lower_seq(trim(mode_slug(m))) == mode_slug(m),
        mode_for_key(mode_slug(m)) == Some(m),
{
    reveal_strlit("academic");
    reveal_strlit("academico");
    reveal_strlit("acadêmico");
    reveal_strlit("devotional");
    reveal_strlit("devocional");
    reveal_strlit("introductory");
    reveal_strlit("introdutorio");
    reveal_strlit("introdutório");
    reveal_strlit("sermon");
    reveal_strlit("pregacao");
    reveal_strlit("pregação");
    let sl = mode_slug(m);
    crate::text::lemma_trim_plain(sl);
    assert(lower_seq(sl) =~= sl);
}

} // verus!
