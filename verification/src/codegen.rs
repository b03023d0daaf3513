//! Reading the definition of a service and naming what is generated for it.

use crate::naming::{
    rpc_path, rpc_path_spec, service_prefix, service_prefix_spec, snake_case, to_snake_case,
};
use crate::text::{concat, texts};
use vstd::prelude::*;
use vstd::string::StringExecFns;

verus! {

/// One token of a definition. The braces of a block stand before and after
/// its tokens.
#[derive(Debug)]
pub enum Token {
    /// An identifier that is no keyword.
    Ident(String),
    /// A keyword of the language.
    Keyword(String),
    /// One character of punctuation.
    Punct(char),
    /// `{`
    Open,
    /// `}`
    Close,
    /// Anything else.
    Other,
}

/// A token as the contracts see it.
pub enum TokenView {
    Ident(Seq<char>),
    Keyword(Seq<char>),
    Punct(char),
    Open,
    Close,
    Other,
}

impl View for Token {
    type V = TokenView;

    open spec fn view(&self) -> TokenView {
        match *self {
            Token::Ident(s) => TokenView::Ident(s@),
            Token::Keyword(s) => TokenView::Keyword(s@),
            Token::Punct(c) => TokenView::Punct(c),
            Token::Open => TokenView::Open,
            Token::Close => TokenView::Close,
            Token::Other => TokenView::Other,
        }
    }
}

/// The views of `tokens`, in their order.
pub open spec fn token_views(tokens: Seq<Token>) -> Seq<TokenView> {
    Seq::new(tokens.len(), |i: int| tokens[i]@)
}

/// The identifier at `i`, if an identifier stands there.
pub open spec fn ident_at(t: Seq<TokenView>, i: int) -> Option<Seq<char>> {
    if 0 <= i < t.len() {
        match t[i] {
            TokenView::Ident(name) => Some(name),
            _ => None,
        }
    } else {
        None
    }
}

/// Whether the token at `i` is `token`.
pub open spec fn token_at(t: Seq<TokenView>, i: int, token: TokenView) -> bool {
    0 <= i < t.len() && t[i] == token
}

/// A service as it was defined.
#[derive(Debug)]
pub struct ServiceDefinition {
    /// The package, its parts joined by dots.
    pub package: String,
    /// The name of the service.
    pub service_name: String,
    /// The name of the mock server to generate.
    pub server_name: String,
    /// The methods of the service, as they were listed.
    pub methods: Vec<String>,
}

/// A definition as the contracts see it.
pub struct DefinitionView {
    pub package: Seq<char>,
    pub service_name: Seq<char>,
    pub server_name: Seq<char>,
    pub methods: Seq<Seq<char>>,
}

impl View for ServiceDefinition {
    type V = DefinitionView;

    open spec fn view(&self) -> DefinitionView {
        DefinitionView {
            package: self.package@,
            service_name: self.service_name@,
            server_name: self.server_name@,
            methods: texts(self.methods@),
        }
    }
}

/// What was expected where a definition could not be read on.
#[derive(Clone, Copy, Debug, PartialEq, Eq, Structural)]
pub enum ParseErrorKind {
    /// An identifier.
    ExpectedIdent,
    /// The word `package`.
    ExpectedPackage,
    /// A semicolon.
    ExpectedSemicolon,
    /// The word `service`.
    ExpectedService,
    /// A block in curly braces.
    ExpectedBraces,
    /// A comma.
    ExpectedComma,
    /// Nothing more.
    ExpectedEnd,
}

/// Why a definition could not be read.
#[derive(Clone, Copy, Debug, PartialEq, Eq, Structural)]
pub struct ParseError {
    /// What was expected.
    pub kind: ParseErrorKind,
    /// The index of the token that stands there instead; the number of
    /// tokens, where they end too early.
    pub at: usize,
}

impl ParseErrorKind {
    /// The error in words.
    pub fn message(&self) -> (text: String)
        ensures
            text@ == match *self {
                ParseErrorKind::ExpectedIdent => "expected identifier"@,
                ParseErrorKind::ExpectedPackage => "expected `package` keyword"@,
                ParseErrorKind::ExpectedSemicolon => "expected `;`"@,
                ParseErrorKind::ExpectedService => "expected `service` keyword"@,
                ParseErrorKind::ExpectedBraces => "expected curly braces"@,
                ParseErrorKind::ExpectedComma => "expected `,`"@,
                ParseErrorKind::ExpectedEnd => "unexpected token"@,
            },
    {
        match self {
            ParseErrorKind::ExpectedIdent => "expected identifier".to_owned(),
            ParseErrorKind::ExpectedPackage => "expected `package` keyword".to_owned(),
            ParseErrorKind::ExpectedSemicolon => "expected `;`".to_owned(),
            ParseErrorKind::ExpectedService => "expected `service` keyword".to_owned(),
            ParseErrorKind::ExpectedBraces => "expected curly braces".to_owned(),
            ParseErrorKind::ExpectedComma => "expected `,`".to_owned(),
            ParseErrorKind::ExpectedEnd => "unexpected token".to_owned(),
        }
    }
}

/// The further parts of a package name from `p` on, each a dot and an
/// identifier: where they end, and their text.
pub open spec fn package_tail(t: Seq<TokenView>, p: int) -> (int, Seq<char>)
    decreases t.len() - p,
{
    if 0 <= p && token_at(t, p, TokenView::Punct('.')) && ident_at(t, p + 1) is Some {
        let (end, rest) = package_tail(t, p + 2);
        (end, seq!['.'] + ident_at(t, p + 1)->0 + rest)
    } else {
        (p, Seq::empty())
    }
}

/// The methods listed from `p` on, with a comma between each two and perhaps
/// one after the last: where the list ends, the methods, and whether it ends
/// behind a method rather than behind a comma.
pub open spec fn method_list(t: Seq<TokenView>, p: int) -> (int, Seq<Seq<char>>, bool)
    decreases t.len() - p,
{
    if 0 <= p && ident_at(t, p) is Some {
        if token_at(t, p + 1, TokenView::Punct(',')) {
            let (end, rest, behind_method) = method_list(t, p + 2);
            (end, seq![ident_at(t, p)->0] + rest, behind_method)
        } else {
            (p + 1, seq![ident_at(t, p)->0], true)
        }
    } else {
        (p, Seq::empty(), false)
    }
}

/// What a reading hands back: a definition, or what was expected and where.
pub type Parsed = Result<DefinitionView, (ParseErrorKind, int)>;

/// The block of methods from `b` on, which ends the definition.
pub open spec fn parse_block(
    t: Seq<TokenView>,
    package: Seq<char>,
    service_name: Seq<char>,
    server_name: Seq<char>,
    b: int,
) -> Parsed {
    if !token_at(t, b, TokenView::Open) {
        Err((ParseErrorKind::ExpectedBraces, b))
    } else {
        let (end, methods, behind_method) = method_list(t, b + 1);
        if !token_at(t, end, TokenView::Close) {
            if behind_method {
                Err((ParseErrorKind::ExpectedComma, end))
            } else {
                Err((ParseErrorKind::ExpectedIdent, end))
            }
        } else if end + 1 < t.len() {
            Err((ParseErrorKind::ExpectedEnd, end + 1))
        } else {
            Ok(DefinitionView { package, service_name, server_name, methods })
        }
    }
}

/// What follows the name of the service from `q` on: perhaps `as` and a name
/// for the server, which is otherwise the service's name and `MockServer`;
/// then the block of methods.
pub open spec fn parse_server(
    t: Seq<TokenView>,
    package: Seq<char>,
    service_name: Seq<char>,
    q: int,
) -> Parsed {
    if token_at(t, q, TokenView::Keyword("as"@)) {
        match ident_at(t, q + 1) {
            Some(server_name) => parse_block(t, package, service_name, server_name, q + 2),
            None => Err((ParseErrorKind::ExpectedIdent, q + 1)),
        }
    } else {
        parse_block(t, package, service_name, service_name + "MockServer"@, q)
    }
}

/// A definition in tokens:
/// `package a.b; service Name as Server { Method, Method, }`, where `as Server`
/// and the last comma may be left out.
pub open spec fn parse_definition(t: Seq<TokenView>) -> Parsed {
    if ident_at(t, 0) is None {
        Err((ParseErrorKind::ExpectedIdent, 0))
    } else if ident_at(t, 0)->0 != "package"@ {
        Err((ParseErrorKind::ExpectedPackage, 0))
    } else if ident_at(t, 1) is None {
        Err((ParseErrorKind::ExpectedIdent, 1))
    } else {
        let (p, tail) = package_tail(t, 2);
        if token_at(t, p, TokenView::Punct('.')) {
            Err((ParseErrorKind::ExpectedIdent, p + 1))
        } else if !token_at(t, p, TokenView::Punct(';')) {
            Err((ParseErrorKind::ExpectedSemicolon, p))
        } else if ident_at(t, p + 1) is None {
            Err((ParseErrorKind::ExpectedIdent, p + 1))
        } else if ident_at(t, p + 1)->0 != "service"@ {
            Err((ParseErrorKind::ExpectedService, p + 1))
        } else if ident_at(t, p + 2) is None {
            Err((ParseErrorKind::ExpectedIdent, p + 2))
        } else {
            parse_server(t, ident_at(t, 1)->0 + tail, ident_at(t, p + 2)->0, p + 3)
        }
    }
}

/// Whether `out` is what `read` says in the library's own types.
pub open spec fn is_parsed(read: Parsed, out: Result<ServiceDefinition, ParseError>) -> bool {
    match read {
        Ok(definition) => out is Ok && out->Ok_0@ == definition,
        Err((kind, at)) => out is Err && out->Err_0.kind == kind && out->Err_0.at == at,
    }
}

/// The identifier at `i`, if an identifier stands there.
fn ident(tokens: &Vec<Token>, i: usize) -> (name: Option<&String>)
    ensures
        match name {
            Some(s) => ident_at(token_views(tokens@), i as int) == Some(s@),
            None => ident_at(token_views(tokens@), i as int) is None,
        },
{
    if i < tokens.len() {
        match &tokens[i] {
            Token::Ident(name) => Some(name),
            _ => None,
        }
    } else {
        None
    }
}

/// Whether the punctuation `c` stands at `i`.
fn punct(tokens: &Vec<Token>, i: usize, c: char) -> (b: bool)
    ensures
        b == token_at(token_views(tokens@), i as int, TokenView::Punct(c)),
{
    if i < tokens.len() {
        match &tokens[i] {
            Token::Punct(p) => *p == c,
            _ => false,
        }
    } else {
        false
    }
}

/// Whether `s` reads `word`.
fn reads(s: &String, word: &str) -> (b: bool)
    ensures
        b == (s@ == word@),
{
    *s == word.to_owned()
}

/// The error for what stands at `at`.
fn fail(kind: ParseErrorKind, at: usize) -> (r: Result<ServiceDefinition, ParseError>)
    ensures
        r is Err,
        r->Err_0.kind == kind,
        r->Err_0.at == at,
{
    Err(ParseError { kind, at })
}

impl ServiceDefinition {
    /// Reads a definition from its tokens.
    pub fn parse(tokens: &Vec<Token>) -> (out: Result<ServiceDefinition, ParseError>)
        ensures
            is_parsed(parse_definition(token_views(tokens@)), out),
    {
        let ghost t = token_views(tokens@);
        match ident(tokens, 0) {
            None => { return fail(ParseErrorKind::ExpectedIdent, 0); },
            Some(word) => {
                if !reads(word, "package") {
                    return fail(ParseErrorKind::ExpectedPackage, 0);
                }
            },
        }
        let mut package = match ident(tokens, 1) {
            None => { return fail(ParseErrorKind::ExpectedIdent, 1); },
            Some(first) => first.clone(),
        };
        let mut p: usize = 2;
        let ghost first = package@;
        assert(package@ + package_tail(t, 2).1 =~= first + package_tail(t, 2).1);
        while punct(tokens, p, '.') && ident(tokens, p + 1).is_some()
            invariant
                t == token_views(tokens@),
                2 <= p <= tokens.len(),
                package_tail(t, p as int).0 == package_tail(t, 2).0,
                package@ + package_tail(t, p as int).1 == first + package_tail(t, 2).1,
            decreases tokens.len() - p,
        {
            let ghost before = package@;
            package.push('.');
            match ident(tokens, p + 1) {
                Some(next) => {
                    package.append(next.as_str());
                },
                None => {},
            }
            assert(package@ =~= before + seq!['.'] + ident_at(t, p + 1)->0);
            assert(package@ + package_tail(t, p + 2).1 =~= before + package_tail(t, p as int).1);
            p += 2;
        }
        if punct(tokens, p, '.') {
            return fail(ParseErrorKind::ExpectedIdent, p + 1);
        }
        if !punct(tokens, p, ';') {
            return fail(ParseErrorKind::ExpectedSemicolon, p);
        }
        match ident(tokens, p + 1) {
            None => { return fail(ParseErrorKind::ExpectedIdent, p + 1); },
            Some(word) => {
                if !reads(word, "service") {
                    return fail(ParseErrorKind::ExpectedService, p + 1);
                }
            },
        }
        let service_name = match ident(tokens, p + 2) {
            None => { return fail(ParseErrorKind::ExpectedIdent, p + 2); },
            Some(name) => name.clone(),
        };
        assert(package@ =~= first + package_tail(t, 2).1);
        let mut q: usize = p + 3;
        let is_as = q < tokens.len() && match &tokens[q] {
            Token::Keyword(word) => reads(word, "as"),
            _ => false,
        };
        assert(is_as == token_at(t, q as int, TokenView::Keyword("as"@)));
        let server_name = if is_as {
            match ident(tokens, q + 1) {
                None => { return fail(ParseErrorKind::ExpectedIdent, q + 1); },
                Some(name) => {
                    q = q + 2;
                    name.clone()
                },
            }
        } else {
            concat(service_name.as_str(), "MockServer")
        };
        let is_open = q < tokens.len() && match &tokens[q] {
            Token::Open => true,
            _ => false,
        };
        if !is_open {
            return fail(ParseErrorKind::ExpectedBraces, q);
        }
        let mut methods: Vec<String> = Vec::new();
        let mut e: usize = q + 1;
        let mut behind_method = false;
        let ghost start = e as int;
        assert(texts(methods@) + method_list(t, start).1 =~= method_list(t, start).1);
        loop
            invariant_except_break
                !behind_method,
                method_list(t, e as int).0 == method_list(t, start).0,
                method_list(t, e as int).2 == method_list(t, start).2,
                texts(methods@) + method_list(t, e as int).1 == method_list(t, start).1,
            invariant
                t == token_views(tokens@),
                start <= e <= tokens.len(),
            ensures
                texts(methods@) == method_list(t, start).1,
                e == method_list(t, start).0,
                behind_method == method_list(t, start).2,
                e <= tokens.len(),
            decreases tokens.len() - e,
        {
            match ident(tokens, e) {
                None => {
                    assert(texts(methods@) + method_list(t, e as int).1 =~= texts(methods@));
                    break ;
                },
                Some(name) => {
                    let ghost before = texts(methods@);
                    methods.push(name.clone());
                    assert(texts(methods@) =~= before.push(ident_at(t, e as int)->0));
                    if punct(tokens, e + 1, ',') {
                        assert(texts(methods@) + method_list(t, e + 2).1 =~= before + method_list(
                            t,
                            e as int,
                        ).1);
                        e += 2;
                    } else {
                        assert(texts(methods@) =~= before + method_list(t, e as int).1);
                        e += 1;
                        behind_method = true;
                        break ;
                    }
                },
            }
        }
        let is_close = e < tokens.len() && match &tokens[e] {
            Token::Close => true,
            _ => false,
        };
        if !is_close {
            if behind_method {
                return fail(ParseErrorKind::ExpectedComma, e);
            } else {
                return fail(ParseErrorKind::ExpectedIdent, e);
            }
        }
        if e + 1 < tokens.len() {
            return fail(ParseErrorKind::ExpectedEnd, e + 1);
        }
        Ok(ServiceDefinition { package, service_name, server_name, methods })
    }
}

/// One generated method: it sets the path of one method of the service.
#[derive(Debug)]
pub struct ExtMethod {
    /// The name of the function: `path_` and the method's name in snake case.
    pub fn_name: String,
    /// The path that the function sets.
    pub path: String,
}

/// The generated trait that gives the match side one function for each method.
#[derive(Debug)]
pub struct ExtTrait {
    /// The name of the trait: the service's name and `TypeSafeExt`.
    pub trait_name: String,
    /// The functions, in the order of the methods.
    pub methods: Vec<ExtMethod>,
}

/// The generated mock server.
#[derive(Debug)]
pub struct MockServer {
    /// The name of the server's type.
    pub server_name: String,
    /// The name under which the server is known as a service: `package.Service`.
    pub prefix: String,
}

/// All that is generated for a service.
#[derive(Debug)]
pub struct Generated {
    pub ext_trait: ExtTrait,
    pub mock_server: MockServer,
}

/// Whether `method` is the function generated for the method `name`.
pub open spec fn is_ext_method(definition: DefinitionView, name: Seq<char>, method: ExtMethod)
    -> bool {
    &&& method.fn_name@ == "path_"@ + snake_case(name)
    &&& method.path@ == rpc_path_spec(definition.package, definition.service_name, name)
}

/// Whether `ext` is the trait generated for `definition`.
pub open spec fn is_ext_trait(definition: DefinitionView, ext: ExtTrait) -> bool {
    &&& ext.trait_name@ == definition.service_name + "TypeSafeExt"@
    &&& ext.methods@.len() == definition.methods.len()
    &&& forall|i: int|
        0 <= i < definition.methods.len() ==> is_ext_method(
            definition,
            definition.methods[i],
            #[trigger] ext.methods@[i],
        )
}

/// Whether `server` is the mock server generated for `definition`.
pub open spec fn is_mock_server(definition: DefinitionView, server: MockServer) -> bool {
    &&& server.server_name@ == definition.server_name
    &&& server.prefix@ == service_prefix_spec(definition.package, definition.service_name)
}

impl ServiceDefinition {
    /// All that is generated for the service.
    pub fn generate(&self) -> (code: Generated)
        ensures
            is_ext_trait(self@, code.ext_trait),
            is_mock_server(self@, code.mock_server),
    {
        Generated {
            ext_trait: self.generate_ext_trait(),
            mock_server: self.generate_mock_server(),
        }
    }

    /// The trait with one function for each method of the service.
    pub fn generate_ext_trait(&self) -> (ext: ExtTrait)
        ensures
            is_ext_trait(self@, ext),
    {
        let trait_name = concat(self.service_name.as_str(), "TypeSafeExt");
        let mut methods: Vec<ExtMethod> = Vec::new();
        let mut i: usize = 0;
        while i < self.methods.len()
            invariant
                i <= self.methods.len(),
                methods.len() == i,
                forall|j: int|
                    0 <= j < i ==> is_ext_method(self@, self@.methods[j], #[trigger] methods@[j]),
            decreases self.methods.len() - i,
        {
            let name = self.methods[i].as_str();
            let snake = to_snake_case(name);
            let method = ExtMethod {
                fn_name: concat("path_", snake.as_str()),
                path: rpc_path(self.package.as_str(), self.service_name.as_str(), name),
            };
            assert(is_ext_method(self@, self@.methods[i as int], method));
            methods.push(method);
            i += 1;
        }
        ExtTrait { trait_name, methods }
    }

    /// The mock server of the service.
    pub fn generate_mock_server(&self) -> (server: MockServer)
        ensures
            is_mock_server(self@, server),
    {
        MockServer {
            server_name: self.server_name.clone(),
            prefix: service_prefix(self.package.as_str(), self.service_name.as_str()),
        }
    }
}

/// The last name of the path that starts at `p`, where an identifier stands:
/// a path goes on with `::` and an identifier.
pub open spec fn path_last(t: Seq<TokenView>, p: int) -> Seq<char>
    decreases t.len() - p,
{
    if 0 <= p && token_at(t, p + 1, TokenView::Punct(':')) && token_at(
        t,
        p + 2,
        TokenView::Punct(':'),
    ) && ident_at(t, p + 3) is Some {
        path_last(t, p + 3)
    } else {
        ident_at(t, p)->0
    }
}

/// The name of the type that `t` spells: the last name of the path that `t`
/// starts with. What follows the path, such as type arguments, has no part
/// in it. Tokens that start with no identifier name no type.
pub open spec fn named_type(t: Seq<TokenView>) -> Option<Seq<char>> {
    if ident_at(t, 0) is Some {
        Some(path_last(t, 0))
    } else {
        None
    }
}

/// The name of the type that `tokens` spell: for `a::b::Name<T>` it is `Name`.
pub fn get_type_name_from_token_stream(tokens: &Vec<Token>) -> (name: Option<String>)
    ensures
        match name {
            Some(text) => named_type(token_views(tokens@)) == Some(text@),
            None => named_type(token_views(tokens@)) is None,
        },
{
    let ghost t = token_views(tokens@);
    if ident(tokens, 0).is_none() {
        return None;
    }
    let mut p: usize = 0;
    while tokens.len() - p > 3 && punct(tokens, p + 1, ':') && punct(tokens, p + 2, ':') && ident(
        tokens,
        p + 3,
    ).is_some()
        invariant
            t == token_views(tokens@),
            p < tokens.len(),
            ident_at(t, p as int) is Some,
            path_last(t, p as int) == path_last(t, 0),
        decreases tokens.len() - p,
    {
        p += 3;
    }
    match ident(tokens, p) {
        Some(name) => Some(name.clone()),
        None => None,
    }
}

/// The tokens of the further parts of a package name: a dot and an identifier each.
pub open spec fn part_tokens(parts: Seq<Seq<char>>) -> Seq<TokenView>
    decreases parts.len(),
{
    if parts.len() == 0 {
        Seq::empty()
    } else {
        seq![TokenView::Punct('.'), TokenView::Ident(parts[0])] + part_tokens(parts.drop_first())
    }
}

/// The text of the further parts of a package name: a dot and the part each.
pub open spec fn part_text(parts: Seq<Seq<char>>) -> Seq<char>
    decreases parts.len(),
{
    if parts.len() == 0 {
        Seq::empty()
    } else {
        seq!['.'] + parts[0] + part_text(parts.drop_first())
    }
}

/// The tokens of a list of methods: identifiers with a comma between each
/// two, and one more comma at the end where `trailing` says so and the list
/// is not empty.
pub open spec fn method_tokens(methods: Seq<Seq<char>>, trailing: bool) -> Seq<TokenView>
    decreases methods.len(),
{
    if methods.len() == 0 {
        Seq::empty()
    } else if methods.len() == 1 && !trailing {
        seq![TokenView::Ident(methods[0])]
    } else {
        seq![TokenView::Ident(methods[0]), TokenView::Punct(',')] + method_tokens(
            methods.drop_first(),
            trailing,
        )
    }
}

/// The tokens that name the server, where a name is given.
pub open spec fn server_tokens(server: Option<Seq<char>>) -> Seq<TokenView> {
    match server {
        Some(name) => seq![TokenView::Keyword("as"@), TokenView::Ident(name)],
        None => Seq::empty(),
    }
}

/// A definition written out in tokens: the package `first` with its further
/// `parts`, the service, perhaps a name for the server, and the methods.
pub open spec fn definition_tokens(
    first: Seq<char>,
    parts: Seq<Seq<char>>,
    service: Seq<char>,
    server: Option<Seq<char>>,
    methods: Seq<Seq<char>>,
    trailing: bool,
) -> Seq<TokenView> {
    seq![TokenView::Ident("package"@), TokenView::Ident(first)] + part_tokens(parts)
        + seq![TokenView::Punct(';'), TokenView::Ident("service"@), TokenView::Ident(service)]
        + server_tokens(server) + seq![TokenView::Open] + method_tokens(methods, trailing)
        + seq![TokenView::Close]
}

/// The definition that `definition_tokens` writes out.
pub open spec fn definition_of(
    first: Seq<char>,
    parts: Seq<Seq<char>>,
    service: Seq<char>,
    server: Option<Seq<char>>,
    methods: Seq<Seq<char>>,
) -> DefinitionView {
    DefinitionView {
        package: first + part_text(parts),
        service_name: service,
        server_name: match server {
            Some(name) => name,
            None => service + "MockServer"@,
        },
        methods,
    }
}

/// Each further part of a package name takes two tokens.
pub proof fn lemma_part_tokens_len(parts: Seq<Seq<char>>)
    ensures
        part_tokens(parts).len() == 2 * parts.len(),
    decreases parts.len(),
{
    if parts.len() > 0 {
        lemma_part_tokens_len(parts.drop_first());
    }
}

/// The number of tokens that a list of methods takes.
pub open spec fn method_tokens_len(methods: Seq<Seq<char>>, trailing: bool) -> int {
    if methods.len() == 0 {
        0
    } else if trailing {
        2 * (methods.len() as int)
    } else {
        2 * (methods.len() as int) - 1
    }
}

/// A list of methods takes two tokens for each method, but one for the last
/// where no comma follows it.
pub proof fn lemma_method_tokens_len(methods: Seq<Seq<char>>, trailing: bool)
    ensures
        method_tokens(methods, trailing).len() == method_tokens_len(methods, trailing),
    decreases methods.len(),
{
    if methods.len() > 0 && !(methods.len() == 1 && !trailing) {
        lemma_method_tokens_len(methods.drop_first(), trailing);
    }
}

/// Where the further parts of a package name stand at `p` and no dot follows
/// them, they are read whole.
pub proof fn lemma_parts_are_read(t: Seq<TokenView>, p: int, parts: Seq<Seq<char>>)
    requires
        0 <= p,
        p + 2 * parts.len() <= t.len(),
        t.subrange(p, p + 2 * parts.len()) == part_tokens(parts),
        !token_at(t, p + 2 * parts.len(), TokenView::Punct('.')),
    ensures
        package_tail(t, p) == (p + 2 * parts.len(), part_text(parts)),
    decreases parts.len(),
{
    let here = part_tokens(parts);
    if parts.len() > 0 {
        let rest = parts.drop_first();
        lemma_part_tokens_len(rest);
        assert(t[p] == t.subrange(p, p + 2 * parts.len())[0]);
        assert(t[p + 1] == t.subrange(p, p + 2 * parts.len())[1]);
        assert(here[0] == TokenView::Punct('.'));
        assert(here[1] == TokenView::Ident(parts[0]));
        assert(t.subrange(p + 2, p + 2 + 2 * rest.len()) =~= part_tokens(rest)) by {
            assert forall|i: int| 0 <= i < 2 * rest.len() implies t[p + 2 + i] == part_tokens(
                rest,
            )[i] by {
                assert(t[p + 2 + i] == t.subrange(p, p + 2 * parts.len())[i + 2]);
                assert(here[i + 2] == part_tokens(rest)[i]);
            }
        }
        lemma_parts_are_read(t, p + 2, rest);
        assert(seq!['.'] + parts[0] + part_text(rest) =~= part_text(parts));
    }
}

/// Where a list of methods stands at `p` and a closing brace follows it, it
/// is read whole.
pub proof fn lemma_methods_are_read(
    t: Seq<TokenView>,
    p: int,
    methods: Seq<Seq<char>>,
    trailing: bool,
)
    requires
        0 <= p,
        p + method_tokens_len(methods, trailing) < t.len(),
        t.subrange(p, p + method_tokens_len(methods, trailing)) == method_tokens(
            methods,
            trailing,
        ),
        t[p + method_tokens_len(methods, trailing)] == TokenView::Close,
    ensures
        method_list(t, p) == (
            p + method_tokens_len(methods, trailing),
            methods,
            methods.len() > 0 && !trailing,
        ),
    decreases methods.len(),
{
    let n = method_tokens_len(methods, trailing);
    let here = method_tokens(methods, trailing);
    if methods.len() == 0 {
        assert(method_list(t, p).1 =~= methods);
    } else if methods.len() == 1 && !trailing {
        assert(t[p] == t.subrange(p, p + n)[0]);
        assert(here[0] == TokenView::Ident(methods[0]));
        assert(method_list(t, p).1 =~= methods);
    } else {
        let rest = methods.drop_first();
        let m = method_tokens_len(rest, trailing);
        lemma_method_tokens_len(rest, trailing);
        assert(t[p] == t.subrange(p, p + n)[0]);
        assert(t[p + 1] == t.subrange(p, p + n)[1]);
        assert(here[0] == TokenView::Ident(methods[0]));
        assert(here[1] == TokenView::Punct(','));
        assert(t.subrange(p + 2, p + 2 + m) =~= method_tokens(rest, trailing)) by {
            assert forall|i: int| 0 <= i < m implies t[p + 2 + i] == method_tokens(
                rest,
                trailing,
            )[i] by {
                assert(t[p + 2 + i] == t.subrange(p, p + n)[i + 2]);
                assert(here[i + 2] == method_tokens(rest, trailing)[i]);
            }
        }
        lemma_methods_are_read(t, p + 2, rest, trailing);
        assert(seq![methods[0]] + rest =~= methods);
    }
}

/// A definition that is written out as `definition_tokens` says is read, and
/// read as the definition that was written.
pub proof fn lemma_written_definition_is_read(
    first: Seq<char>,
    parts: Seq<Seq<char>>,
    service: Seq<char>,
    server: Option<Seq<char>>,
    methods: Seq<Seq<char>>,
    trailing: bool,
)
    ensures
        parse_definition(definition_tokens(first, parts, service, server, methods, trailing))
            == Ok::<DefinitionView, (ParseErrorKind, int)>(
            definition_of(first, parts, service, server, methods),
        ),
{
    let t = definition_tokens(first, parts, service, server, methods, trailing);
    let n: int = 2 * (parts.len() as int);
    let k: int = server_tokens(server).len() as int;
    let m = method_tokens_len(methods, trailing);
    lemma_part_tokens_len(parts);
    lemma_method_tokens_len(methods, trailing);
    assert(t.len() == n + k + m + 7);
    assert(t[0] == TokenView::Ident("package"@));
    assert(t[1] == TokenView::Ident(first));
    assert(t.subrange(2, 2 + n) =~= part_tokens(parts));
    let p: int = 2 + n;
    assert(t[p] == TokenView::Punct(';'));
    lemma_parts_are_read(t, 2, parts);
    assert(t[p + 1] == TokenView::Ident("service"@));
    assert(t[p + 2] == TokenView::Ident(service));
    let q: int = p + 3;
    match server {
        Some(name) => {
            assert(t[q] == TokenView::Keyword("as"@));
            assert(t[q + 1] == TokenView::Ident(name));
        },
        None => {
            assert(t[q] == TokenView::Open);
        },
    }
    let b: int = q + k;
    assert(t[b] == TokenView::Open);
    assert(t.subrange(b + 1, b + 1 + m) =~= method_tokens(methods, trailing));
    assert(t[b + 1 + m] == TokenView::Close);
    lemma_methods_are_read(t, b + 1, methods, trailing);
}

/// The further parts of a package name that stand from `p` on.
pub open spec fn parts_at(t: Seq<TokenView>, p: int) -> Seq<Seq<char>>
    decreases t.len() - p,
{
    if 0 <= p && token_at(t, p, TokenView::Punct('.')) && ident_at(t, p + 1) is Some {
        seq![ident_at(t, p + 1)->0] + parts_at(t, p + 2)
    } else {
        Seq::empty()
    }
}

/// What is read as the further parts of a package name is what
/// `part_tokens` writes for them.
pub proof fn lemma_read_parts_are_written(t: Seq<TokenView>, p: int)
    requires
        0 <= p <= t.len(),
    ensures
        package_tail(t, p).0 == p + 2 * parts_at(t, p).len(),
        package_tail(t, p).0 <= t.len(),
        t.subrange(p, package_tail(t, p).0) == part_tokens(parts_at(t, p)),
        package_tail(t, p).1 == part_text(parts_at(t, p)),
    decreases t.len() - p,
{
    let parts = parts_at(t, p);
    if token_at(t, p, TokenView::Punct('.')) && ident_at(t, p + 1) is Some {
        lemma_read_parts_are_written(t, p + 2);
        let rest = parts_at(t, p + 2);
        let e = package_tail(t, p).0;
        assert(parts.drop_first() =~= rest);
        assert(parts[0] == ident_at(t, p + 1)->0);
        assert(t.subrange(p, e) =~= seq![t[p], t[p + 1]] + t.subrange(p + 2, e));
    } else {
        assert(t.subrange(p, p) =~= Seq::empty());
    }
}

/// What is read as a list of methods is what `method_tokens` writes for it,
/// with a last comma unless the list ends behind a method.
pub proof fn lemma_read_methods_are_written(t: Seq<TokenView>, p: int)
    requires
        0 <= p <= t.len(),
    ensures
        ({
            let (end, methods, behind_method) = method_list(t, p);
            &&& end == p + method_tokens_len(methods, !behind_method)
            &&& end <= t.len()
            &&& t.subrange(p, end) == method_tokens(methods, !behind_method)
            &&& behind_method ==> methods.len() > 0
        }),
    decreases t.len() - p,
{
    let (end, methods, behind_method) = method_list(t, p);
    if ident_at(t, p) is Some {
        if token_at(t, p + 1, TokenView::Punct(',')) {
            lemma_read_methods_are_written(t, p + 2);
            let rest = method_list(t, p + 2).1;
            assert(methods.drop_first() =~= rest);
            assert(methods[0] == ident_at(t, p)->0);
            assert(t.subrange(p, end) =~= seq![t[p], t[p + 1]] + t.subrange(p + 2, end));
        } else {
            assert(t.subrange(p, end) =~= seq![t[p]]);
        }
    } else {
        assert(t.subrange(p, p) =~= Seq::empty());
    }
}

/// Only what `definition_tokens` writes is read as a definition, and it is
/// read as what was written.
pub proof fn lemma_read_definition_is_written(t: Seq<TokenView>)
    requires
        parse_definition(t) is Ok,
    ensures
        exists|
            first: Seq<char>,
            parts: Seq<Seq<char>>,
            service: Seq<char>,
            server: Option<Seq<char>>,
            methods: Seq<Seq<char>>,
            trailing: bool,
        |
            t == #[trigger] definition_tokens(first, parts, service, server, methods, trailing)
                && parse_definition(t)->Ok_0 == definition_of(
                first,
                parts,
                service,
                server,
                methods,
            ),
{
    let first = ident_at(t, 1)->0;
    let parts = parts_at(t, 2);
    lemma_read_parts_are_written(t, 2);
    let p = package_tail(t, 2).0;
    let service = ident_at(t, p + 2)->0;
    let q = p + 3;
    let named = token_at(t, q, TokenView::Keyword("as"@));
    let server = if named {
        Some(ident_at(t, q + 1)->0)
    } else {
        None
    };
    let b = if named {
        q + 2
    } else {
        q
    };
    lemma_read_methods_are_written(t, b + 1);
    let (end, methods, behind_method) = method_list(t, b + 1);
    let written = definition_tokens(first, parts, service, server, methods, !behind_method);
    lemma_part_tokens_len(parts);
    lemma_method_tokens_len(methods, !behind_method);
    assert(t.len() == end + 1);
    assert(written.len() == t.len());
    assert forall|i: int| 0 <= i < t.len() implies t[i] == written[i] by {
        if 2 <= i < p {
            assert(t.subrange(2, p)[i - 2] == t[i]);
        } else if b + 1 <= i < end {
            assert(t.subrange(b + 1, end)[i - (b + 1)] == t[i]);
        }
    }
    assert(t =~= written);
}

} // verus!
