//! Interface strings in Portuguese (the default) with English fallback.
//!
//! Catalogs are TOML documents (`[section] key = "text"`) flattened into
//! `"section.key" -> text` tables. A key resolves in the current language
//! first, then in the other one, and otherwise echoes itself, so the
//! interface never shows an empty label.
use vstd::prelude::*;

use crate::errors::DarbError;
use crate::text::{chars_of, chars_eq, concat, lowercase_chars, owned, string_of, trim_chars, CharClass};
use crate::textmap::TextMap;
use crate::tomldoc::{parse_toml, TomlValue};

verus! {

/// Portuguese catalog shipped with the library.
pub const PT_TOML: &'static str = r#"[agent]
cancelled = "Cancelado"
completed = "Concluído"
denied_by_user = "Negado pelo utilizador"
error = "Erro: {message}"
executing = "A executar..."
failed = "Falhou"
planning = "A planear..."
retrying = "A tentar de novo..."
reviewing = "A rever..."
thinking = "A pensar..."
tool_failed = "{tool} falhou"
tool_requested = "{tool} → {target}"
waiting = "À espera do fornecedor..."

[app]
busy = "Ocupado: aguarde o fim da tarefa atual"
cancelling = "A cancelar..."
config_reloaded = "Configuração recarregada"
memory_unavailable = "Memória indisponível: {reason}"
mouse_unavailable = "Rato indisponível: {reason}"
offline = "Sem fornecedor: o agente está desligado"
previous_session = "Sessão anterior"
profile = "Perfil: {name}"
provider_unavailable = "Fornecedor indisponível: {reason}"
ready = "Pronto"
tools = "Ferramentas: {count}"

[chat]
completion = "Resposta"
darb = "Darb"
hint = "Enter envia · Ctrl+K comandos · Esc cancela"
placeholder = "Descreva a tarefa..."
you = "Você"

[cli]
config_fallback = "Configuração inválida, a usar os valores por omissão: {reason}"
locale_fallback = "Idioma indisponível, a usar o português: {reason}"
no_cwd = "Sem diretório atual: {reason}"
no_runtime = "Não foi possível iniciar o runtime: {reason}"
unknown_command = "Comando desconhecido: {command}"
usage = "Uso:\n  darb            abre a interface\n  darb init       prepara o projeto atual\n  darb doctor     verifica o ambiente\n  darb --version  mostra a versão"
version = "darb {version}"

[cmd]
git_status = "Estado do git"
new_chat = "Nova conversa"
open_changes = "Abrir alterações"
open_chat = "Abrir conversa"
open_files = "Abrir ficheiros"
open_git = "Abrir git"
open_tasks = "Abrir tarefas"
open_terminal = "Abrir terminal"
quit = "Sair"
refresh_files = "Atualizar ficheiros"
show_diff = "Ver alterações (diff)"
toggle_explorer = "Mostrar/ocultar explorador"
toggle_language = "Mudar idioma (pt/en)"

[context]
entries = "Memória: {count} entradas"
files = "Ficheiros: {count}"
model = "Modelo: {model}"

[dialog]
allow = "[s] Permitir"
deny = "[n] Negar"
permission_title = "Permissão"

[doctor]
all_passed = "Tudo pronto."
config = "Configuração"
config_missing = "Configuração em falta: {path}"
failed = "{count} verificação(ões) falharam"
initialized = "Projeto inicializado em {path}"
key_missing = "Chave da API em falta"
key_set = "Chave da API definida"
not_initialized = "Projeto não inicializado (use darb init)"
project = "Projeto"
provider = "Fornecedor"
provider_unimplemented = "Fornecedor ainda não suportado"
title = "darb doctor"
tool_missing = "Ferramenta em falta: {binary}"

[explorer]
parent = ".. (pasta acima)"

[file]
edit_hint = "Ctrl+E editar · Ctrl+S guardar · Esc sair"
empty = "Sem ficheiros"
open_error = "Não foi possível abrir {path}: {reason}"
preview_title = "Ficheiro: {path}"

[git]
empty = "Sem alterações no repositório"

[init]
created = "Criado {path}"
error = "Falha ao inicializar: {reason}"
exists = "Já existe: {path}"

[palette]
hint = "Escreva para filtrar · Enter executa · Esc fecha"
no_match = "Nenhum comando corresponde"
title = "Comandos"

[panel]
changes = "Alterações"
chat = "Conversa"
empty = "Nada para mostrar ainda"
explorer = "Explorador"
files = "Ficheiros"
git = "Git"
tasks = "Tarefas"
terminal = "Terminal"

[permissions]
ask = "À espera de permissão"
denied = "{tool} negado: {target}"

[terminal]
exit_code = "código de saída {code}"
hint = "Escreva um comando e prima Enter"
"#;

/// English catalog shipped with the library.
pub const EN_TOML: &'static str = r#"[agent]
cancelled = "Cancelled"
completed = "Completed"
denied_by_user = "Denied by the user"
error = "Error: {message}"
executing = "Executing..."
failed = "Failed"
planning = "Planning..."
retrying = "Retrying..."
reviewing = "Reviewing..."
thinking = "Thinking..."
tool_failed = "{tool} failed"
tool_requested = "{tool} → {target}"
waiting = "Waiting for the provider..."

[app]
busy = "Busy: wait for the current task to finish"
cancelling = "Cancelling..."
config_reloaded = "Configuration reloaded"
memory_unavailable = "Memory unavailable: {reason}"
mouse_unavailable = "Mouse unavailable: {reason}"
offline = "No provider: the agent is offline"
previous_session = "Previous session"
profile = "Profile: {name}"
provider_unavailable = "Provider unavailable: {reason}"
ready = "Ready"
tools = "Tools: {count}"

[chat]
completion = "Answer"
darb = "Darb"
hint = "Enter sends · Ctrl+K commands · Esc cancels"
placeholder = "Describe the task..."
you = "You"

[cli]
config_fallback = "Invalid configuration, using defaults: {reason}"
locale_fallback = "Language unavailable, using Portuguese: {reason}"
no_cwd = "No current directory: {reason}"
no_runtime = "Could not start the runtime: {reason}"
unknown_command = "Unknown command: {command}"
usage = "Usage:\n  darb            open the interface\n  darb init       set up the current project\n  darb doctor     check the environment\n  darb --version  print the version"
version = "darb {version}"

[cmd]
git_status = "Git status"
new_chat = "New chat"
open_changes = "Open changes"
open_chat = "Open chat"
open_files = "Open files"
open_git = "Open git"
open_tasks = "Open tasks"
open_terminal = "Open terminal"
quit = "Quit"
refresh_files = "Refresh files"
show_diff = "Show changes (diff)"
toggle_explorer = "Show/hide explorer"
toggle_language = "Switch language (pt/en)"

[context]
entries = "Memory: {count} entries"
files = "Files: {count}"
model = "Model: {model}"

[dialog]
allow = "[y] Allow"
deny = "[n] Deny"
permission_title = "Permission"

[doctor]
all_passed = "All good."
config = "Configuration"
config_missing = "Missing configuration: {path}"
failed = "{count} check(s) failed"
initialized = "Project initialized at {path}"
key_missing = "API key missing"
key_set = "API key set"
not_initialized = "Project not initialized (run darb init)"
project = "Project"
provider = "Provider"
provider_unimplemented = "Provider not supported yet"
title = "darb doctor"
tool_missing = "Missing tool: {binary}"

[explorer]
parent = ".. (parent folder)"

[file]
edit_hint = "Ctrl+E edit · Ctrl+S save · Esc leave"
empty = "No files"
open_error = "Could not open {path}: {reason}"
preview_title = "File: {path}"

[git]
empty = "No changes in the repository"

[init]
created = "Created {path}"
error = "Initialization failed: {reason}"
exists = "Already exists: {path}"

[palette]
hint = "Type to filter · Enter runs · Esc closes"
no_match = "No command matches"
title = "Commands"

[panel]
changes = "Changes"
chat = "Chat"
empty = "Nothing to show yet"
explorer = "Explorer"
files = "Files"
git = "Git"
tasks = "Tasks"
terminal = "Terminal"

[permissions]
ask = "Waiting for permission"
denied = "{tool} denied: {target}"

[terminal]
exit_code = "exit code {code}"
hint = "Type a command and press Enter"
"#;

/// Supported interface languages.
#[derive(Debug, Clone, Copy, PartialEq, Eq, Structural)]
pub enum Locale {
    Pt,
    En,
}

impl Default for Locale {
    /// Portuguese.
    fn default() -> (l: Self)
        ensures
            l == Locale::Pt,
    {
        Locale::Pt
    }
}

/// Language a setting names: `en` (after trimming and lower-casing) is
/// English, anything else Portuguese.
pub open spec fn locale_of(value: Seq<char>) -> Locale {
    if crate::text::lowercase_of(crate::text::trim(value)) == seq!['e', 'n'] {
        Locale::En
    } else {
        Locale::Pt
    }
}

/// Code of a language.
pub open spec fn locale_code(l: Locale) -> Seq<char> {
    match l {
        Locale::Pt => seq!['p', 't'],
        Locale::En => seq!['e', 'n'],
    }
}

impl Locale {
    /// Parse a language setting (case-insensitive); unknown values give
    /// Portuguese. Each language's own code parses back to it.
    pub fn parse(value: &str) -> (l: Self)
        ensures
            l == locale_of(value@),
            value@ == locale_code(Locale::Pt) ==> l == Locale::Pt,
            value@ == locale_code(Locale::En) ==> l == Locale::En,
    {
        let v = chars_of(value);
        let t = trim_chars(&v, CharClass::Whitespace);
        proof {
            if v@ == locale_code(Locale::Pt) || v@ == locale_code(Locale::En) {
                crate::text::lemma_trim_plain(v@);
            }
        }
        let lower = lowercase_chars(&t);
        let en: Vec<char> = vec!['e', 'n'];
        proof {
            assert(en@ == seq!['e', 'n']);
        }
        if chars_eq(&lower, &en) {
            Locale::En
        } else {
            Locale::Pt
        }
    }

    /// The language's code, `"pt"` or `"en"`.
    pub fn as_str(self) -> (r: &'static str)
        ensures
            r@ == locale_code(self),
    {
        match self {
            Locale::Pt => {
                proof {
                    reveal_strlit("pt");
                }
                "pt"
            },
            Locale::En => {
                proof {
                    reveal_strlit("en");
                }
                "en"
            },
        }
    }
}

/// Full key of `key` under `prefix` (`prefix.key`, or `key` at the top).
pub open spec fn join_key(prefix: Seq<char>, key: Seq<char>) -> Seq<char> {
    if prefix.len() == 0 {
        key
    } else {
        prefix + seq!['.'] + key
    }
}

/// The `(full key, text)` pairs of a table, in table order: nested tables
/// contribute their own entries under the joined key, strings their text,
/// other values their TOML text.
pub open spec fn flat_entries(es: Seq<(String, TomlValue)>, prefix: Seq<char>) -> Seq<(Seq<char>, Seq<char>)>
    decreases es,
{
    if es.len() == 0 {
        Seq::empty()
    } else {
        let last = es[es.len() - 1];
        let full = join_key(prefix, last.0@);
        let head = flat_entries(es.drop_last(), prefix);
        match last.1 {
            TomlValue::Table(inner) => {
                proof {
                    assert(decreases_to!(es => es[es.len() - 1]));
                }
                head + flat_entries(inner@, full)
            },
            TomlValue::Str(s) => head.push((full, s@)),
            TomlValue::Other(s) => head.push((full, s@)),
        }
    }
}

/// A map after inserting the pairs in order (a later pair wins).
pub open spec fn insert_all(m: Map<Seq<char>, Seq<char>>, ps: Seq<(Seq<char>, Seq<char>)>) -> Map<Seq<char>, Seq<char>>
    decreases ps.len(),
{
    if ps.len() == 0 {
        m
    } else {
        insert_all(m, ps.drop_last()).insert(ps.last().0, ps.last().1)
    }
}

proof fn lemma_insert_all_concat(m: Map<Seq<char>, Seq<char>>, a: Seq<(Seq<char>, Seq<char>)>, b: Seq<(Seq<char>, Seq<char>)>)
    ensures
        insert_all(m, a + b) == insert_all(insert_all(m, a), b),
    decreases b.len(),
{
    if b.len() == 0 {
        assert(a + b == a);
    } else {
        lemma_insert_all_concat(m, a, b.drop_last());
        assert((a + b).drop_last() == a + b.drop_last());
    }
}

/// The flattened catalog of a decoded document.
pub open spec fn catalog_of(doc: Seq<(String, TomlValue)>) -> Map<Seq<char>, Seq<char>> {
    insert_all(Map::empty(), flat_entries(doc, Seq::empty()))
}

/// Flatten `[section] key = value` into `section.key -> value` entries of
/// `out`, inserting in table order.
fn flatten(table: &Vec<(String, TomlValue)>, prefix: &str, out: &mut TextMap)
    ensures
        final(out)@ == insert_all(old(out)@, flat_entries(table@, prefix@)),
        old(out).wf() ==> final(out).wf(),
    decreases table@,
{
    let ghost start = out@;
    let top = chars_of(prefix).len() == 0;
    let mut i: usize = 0;
    while i < table.len()
        invariant
            i <= table@.len(),
            top == (prefix@.len() == 0),
            out@ == insert_all(start, flat_entries(table@.take(i as int), prefix@)),
            old(out).wf() ==> out.wf(),
        decreases table.len() - i,
    {
        let key = &table[i].0;
        let full = if top {
            owned(key.as_str())
        } else {
            let dotted = concat(prefix, ".");
            proof {
                reveal_strlit(".");
            }
            concat(dotted.as_str(), key.as_str())
        };
        let ghost before = out@;
        let ghost took = table@.take(i + 1);
        proof {
            assert(took.drop_last() == table@.take(i as int));
            assert(took[took.len() - 1] == table@[i as int]);
            assert(full@ == join_key(prefix@, key@));
        }
        match &table[i].1 {
            TomlValue::Table(inner) => {
                proof {
                    assert(decreases_to!(table@ => table@[i as int]));
                }
                flatten(inner, full.as_str(), out);
                proof {
                    assert(flat_entries(took, prefix@) == flat_entries(table@.take(i as int), prefix@)
                        + flat_entries(inner@, full@));
                    lemma_insert_all_concat(
                        start,
                        flat_entries(table@.take(i as int), prefix@),
                        flat_entries(inner@, full@),
                    );
                }
            },
            TomlValue::Str(s) => {
                let ghost fv = full@;
                out.insert(full, owned(s.as_str()));
                proof {
                    let ps = flat_entries(table@.take(i as int), prefix@).push((fv, s@));
                    assert(flat_entries(took, prefix@) == ps);
                    assert(ps.drop_last() == flat_entries(table@.take(i as int), prefix@));
                }
            },
            TomlValue::Other(s) => {
                let ghost fv = full@;
                out.insert(full, owned(s.as_str()));
                proof {
                    let ps = flat_entries(table@.take(i as int), prefix@).push((fv, s@));
                    assert(flat_entries(took, prefix@) == ps);
                    assert(ps.drop_last() == flat_entries(table@.take(i as int), prefix@));
                }
            },
        }
        i = i + 1;
    }
    proof {
        assert(table@.take(table@.len() as int) == table@);
    }
}

/// The catalog of a decoded document: `section.key -> text`, a later
/// entry winning over an earlier one with the same key.
pub fn catalog_from(doc: &Vec<(String, TomlValue)>) -> (m: TextMap)
    ensures
        m@ == catalog_of(doc@),
        m.wf(),
{
    let mut out = TextMap::new();
    proof {
        reveal_strlit("");
        assert(""@ =~= Seq::<char>::empty());
    }
    flatten(doc, "", &mut out);
    out
}

/// Decode one catalog. Succeeds exactly when the TOML decodes; the error
/// names the catalog and carries the decoder's message.
pub fn parse_locale_toml(text: &str, name: &str) -> (r: Result<TextMap, DarbError>)
    ensures
        match crate::tomldoc::toml_document(text@) {
            Ok(doc) => r matches Ok(m) && m@ == catalog_of(doc@),
            Err(e) => r matches Err(err) && err is Config && err.detail_view() == "invalid locale '"@
                + name@ + "': "@ + e@,
        },
{
    match parse_toml(text) {
        Ok(doc) => Ok(catalog_from(&doc)),
        Err(e) => {
            let a = concat("invalid locale '", name);
            let b = concat(a.as_str(), "': ");
            let msg = concat(b.as_str(), e.as_str());
            Err(DarbError::Config(msg))
        },
    }
}

/// Translation tables of both languages and the current language.
pub struct I18n {
    pub language: Locale,
    pub pt: TextMap,
    pub en: TextMap,
}

impl I18n {
    /// Text shown for `key`: from the current language's table, else from
    /// the other one, else the key itself.
    pub open spec fn resolve(&self, key: Seq<char>) -> Seq<char> {
        let (primary, secondary) = match self.language {
            Locale::Pt => (self.pt@, self.en@),
            Locale::En => (self.en@, self.pt@),
        };
        if primary.contains_key(key) {
            primary[key]
        } else if secondary.contains_key(key) {
            secondary[key]
        } else {
            key
        }
    }

    /// Tables decoded from the given Portuguese and English catalog texts.
    pub fn from_sources(language: Locale, pt: &str, en: &str) -> (r: Result<Self, DarbError>)
        ensures
            match (crate::tomldoc::toml_document(pt@), crate::tomldoc::toml_document(en@)) {
                (Ok(p), Ok(e)) => r matches Ok(i) && i.language == language && i.pt@ == catalog_of(p@)
                    && i.en@ == catalog_of(e@),
                (Err(m), _) => r matches Err(err) && err is Config && err.detail_view()
                    == "invalid locale '"@ + "pt"@ + "': "@ + m@,
                (Ok(_), Err(m)) => r matches Err(err) && err is Config && err.detail_view()
                    == "invalid locale '"@ + "en"@ + "': "@ + m@,
            },
    {
        let pt_map = match parse_locale_toml(pt, "pt") {
            Ok(m) => m,
            Err(e) => {
                return Err(e);
            },
        };
        let en_map = match parse_locale_toml(en, "en") {
            Ok(m) => m,
            Err(e) => {
                return Err(e);
            },
        };
        Ok(I18n { language, pt: pt_map, en: en_map })
    }

    /// Tables of the shipped catalogs, for the given language.
    pub fn new(language: Locale) -> (r: Result<Self, DarbError>)
        ensures
            match (crate::tomldoc::toml_document(PT_TOML@), crate::tomldoc::toml_document(EN_TOML@)) {
                (Ok(p), Ok(e)) => r matches Ok(i) && i.language == language && i.pt@ == catalog_of(p@)
                    && i.en@ == catalog_of(e@),
                (Err(m), _) => r matches Err(err) && err is Config && err.detail_view()
                    == "invalid locale '"@ + "pt"@ + "': "@ + m@,
                (Ok(_), Err(m)) => r matches Err(err) && err is Config && err.detail_view()
                    == "invalid locale '"@ + "en"@ + "': "@ + m@,
            },
    {
        Self::from_sources(language, PT_TOML, EN_TOML)
    }

    /// Switch the current language; the tables stay as they are.
    pub fn set_language(&mut self, language: Locale)
        ensures
            final(self).language == language,
            final(self).pt == old(self).pt,
            final(self).en == old(self).en,
    {
        self.language = language;
    }

    /// The current language.
    pub fn language(&self) -> (l: Locale)
        ensures
            l == self.language,
    {
        self.language
    }

    /// Resolve `key` with fallback to the other language, echoing the key
    /// when neither table has it.
    pub fn text<'a>(&'a self, key: &'a str) -> (r: &'a str)
        ensures
            r@ == self.resolve(key@),
    {
        let (primary, secondary) = match self.language {
            Locale::Pt => (&self.pt, &self.en),
            Locale::En => (&self.en, &self.pt),
        };
        match primary.get(key) {
            Some(v) => v.as_str(),
            None => match secondary.get(key) {
                Some(v) => v.as_str(),
                None => key,
            },
        }
    }

    /// Resolve `key`, then fill its `{name}` placeholders from `args`.
    pub fn format(&self, key: &str, args: &[(&str, &str)]) -> (r: String)
        ensures
            r@ == fill(self.resolve(key@), arg_views(args@)),
    {
        format_text(self.text(key), args)
    }
}

/// `{name}`, the placeholder for argument `name`.
pub open spec fn placeholder(name: Seq<char>) -> Seq<char> {
    seq!['{'] + name + seq!['}']
}

/// `s` with every non-overlapping occurrence of `pat`, scanning left to
/// right, replaced by `rep` (`str::replace`).
pub open spec fn replace_all(s: Seq<char>, pat: Seq<char>, rep: Seq<char>) -> Seq<char>
    decreases s.len(),
{
    if pat.len() == 0 || s.len() < pat.len() {
        s
    } else if s.take(pat.len() as int) == pat {
        rep + replace_all(s.skip(pat.len() as int), pat, rep)
    } else {
        seq![s[0]] + replace_all(s.drop_first(), pat, rep)
    }
}

/// `text` with the arguments' placeholders filled, argument by argument
/// (each argument is a `(name, value)` pair).
pub open spec fn fill(text: Seq<char>, args: Seq<(Seq<char>, Seq<char>)>) -> Seq<char>
    decreases args.len(),
{
    if args.len() == 0 {
        text
    } else {
        replace_all(fill(text, args.drop_last()), placeholder(args.last().0), args.last().1)
    }
}

/// Views of `(name, value)` argument pairs.
pub open spec fn arg_views(args: Seq<(&str, &str)>) -> Seq<(Seq<char>, Seq<char>)> {
    args.map_values(|a: (&str, &str)| (a.0@, a.1@))
}

/// Replace every occurrence of `pat` in `s` by `rep`.
fn replace_chars(s: &Vec<char>, pat: &Vec<char>, rep: &Vec<char>) -> (r: Vec<char>)
    requires
        pat@.len() > 0,
    ensures
        r@ == replace_all(s@, pat@, rep@),
{
    let n = s.len();
    let p = pat.len();
    let mut out: Vec<char> = Vec::new();
    let mut i: usize = 0;
    proof {
        assert(s@.skip(0) == s@);
    }
    while i < n && p <= n - i
        invariant
            n == s@.len(),
            p == pat@.len(),
            p > 0,
            i <= n,
            replace_all(s@, pat@, rep@) == out@ + replace_all(s@.skip(i as int), pat@, rep@),
        decreases n - i,
    {
        let ghost rest = s@.skip(i as int);
        proof {
            assert(rest.take(p as int) == s@.subrange(i as int, i + p));
        }
        if crate::text::matches_at(s, pat, i) {
            let mut k: usize = 0;
            let ghost out0 = out@;
            while k < rep.len()
                invariant
                    k <= rep@.len(),
                    out@ == out0 + rep@.take(k as int),
                decreases rep.len() - k,
            {
                out.push(rep[k]);
                proof {
                    assert(rep@.take(k + 1) == rep@.take(k as int).push(rep@[k as int]));
                }
                k = k + 1;
            }
            proof {
                assert(rep@.take(rep@.len() as int) == rep@);
                assert(rest.skip(p as int) == s@.skip(i + p));
            }
            i = i + p;
        } else {
            let ghost out0 = out@;
            out.push(s[i]);
            proof {
                assert(rest.drop_first() == s@.skip(i + 1));
                assert(out0 + (seq![rest[0]] + replace_all(rest.drop_first(), pat@, rep@)) == out@
                    + replace_all(rest.drop_first(), pat@, rep@));
            }
            i = i + 1;
        }
    }
    let ghost out0 = out@;
    let mut j = i;
    while j < n
        invariant
            i <= j <= n,
            n == s@.len(),
            out@ == out0 + s@.subrange(i as int, j as int),
        decreases n - j,
    {
        out.push(s[j]);
        proof {
            assert(s@.subrange(i as int, j + 1) == s@.subrange(i as int, j as int).push(s@[j as int]));
        }
        j = j + 1;
    }
    proof {
        assert(s@.skip(i as int) == s@.subrange(i as int, n as int));
    }
    out
}

/// Fill `{name}` placeholders from `args`, in argument order. A
/// placeholder with no argument stays verbatim, so a missing argument is
/// visible instead of collapsing to nothing.
pub fn format_text(text: &str, args: &[(&str, &str)]) -> (r: String)
    ensures
        r@ == fill(text@, arg_views(args@)),
{
    let mut cur = chars_of(text);
    let mut i: usize = 0;
    while i < args.len()
        invariant
            i <= args@.len(),
            cur@ == fill(text@, arg_views(args@.take(i as int))),
        decreases args.len() - i,
    {
        let (name, value) = args[i];
        let mut pat: Vec<char> = vec!['{'];
        let nv = chars_of(name);
        let mut k: usize = 0;
        while k < nv.len()
            invariant
                k <= nv@.len(),
                pat@ == seq!['{'] + nv@.take(k as int),
            decreases nv.len() - k,
        {
            pat.push(nv[k]);
            proof {
                assert(nv@.take(k + 1) == nv@.take(k as int).push(nv@[k as int]));
            }
            k = k + 1;
        }
        pat.push('}');
        proof {
            assert(nv@.take(nv@.len() as int) == nv@);
            assert(pat@ == placeholder(name@));
            assert(arg_views(args@.take(i + 1)).drop_last() == arg_views(args@.take(i as int)));
            assert(arg_views(args@.take(i + 1)).last() == (name@, value@));
        }
        let rep = chars_of(value);
        cur = replace_chars(&cur, &pat, &rep);
        i = i + 1;
    }
    proof {
        assert(args@.take(args@.len() as int) == args@);
    }
    string_of(&cur)
}

proof fn lemma_replace_absent(s: Seq<char>, pat: Seq<char>, rep: Seq<char>)
    requires
        !crate::text::contains(s, pat),
    ensures
        replace_all(s, pat, rep) == s,
    decreases s.len(),
{
    if pat.len() == 0 || s.len() < pat.len() {
    } else {
        if s.take(pat.len() as int) == pat {
            assert(crate::text::occurs_at(s, pat, 0));
        }
        let t = s.drop_first();
        assert forall|j: int| !crate::text::occurs_at(t, pat, j) by {
            if crate::text::occurs_at(t, pat, j) {
                assert(t.subrange(j, j + pat.len()) == s.subrange(j + 1, j + 1 + pat.len()));
                assert(crate::text::occurs_at(s, pat, j + 1));
            }
        }
        lemma_replace_absent(t, pat, rep);
        assert(seq![s[0]] + t == s);
    }
}

/// Formatting leaves a text untouched when none of the arguments'
/// placeholders occurs in it.
pub proof fn law_format_without_placeholders_is_identity(text: Seq<char>, args: Seq<(Seq<char>, Seq<char>)>)
    requires
        forall|i: int| 0 <= i < args.len() ==> !crate::text::contains(text, placeholder(#[trigger] args[i].0)),
    ensures
        fill(text, args) == text,
    decreases args.len(),
{
    if args.len() > 0 {
        let init = args.drop_last();
        assert forall|i: int| 0 <= i < init.len() implies !crate::text::contains(text, placeholder(#[trigger] init[i].0)) by {
            assert(init[i] == args[i]);
        }
        law_format_without_placeholders_is_identity(text, init);
        assert(args.last() == args[args.len() - 1]);
        lemma_replace_absent(text, placeholder(args.last().0), args.last().1);
    }
}

/// The language of a text resolution: a key present in the current
/// language's table shows that table's text; a key missing from it falls
/// back to the other table; a key missing from both echoes itself.
pub proof fn law_text_falls_back_then_echoes(i: I18n, key: Seq<char>)
    ensures
        ({
            let (primary, secondary) = if i.language == Locale::Pt {
                (i.pt@, i.en@)
            } else {
                (i.en@, i.pt@)
            };
            &&& primary.contains_key(key) ==> i.resolve(key) == primary[key]
            &&& !primary.contains_key(key) && secondary.contains_key(key) ==> i.resolve(key) == secondary[key]
            &&& !primary.contains_key(key) && !secondary.contains_key(key) ==> i.resolve(key) == key
        }),
{
}

} // verus!
