//! The connection to the store: its address, its access token, and what its
//! answers say about single products.
use vstd::prelude::*;
use vstd::string::*;

use crate::api::{base_address, base_url, token, token_request};
use crate::exchange::{Method, ReadMode, Reply, ReplyView, Request, RequestView};
use crate::json::{at, first_at, integer_at, items_at, seen, text_at, text_or_empty, Json, JsonView};
use crate::models::ShopifyLocationsResponse;
use crate::numbers::{
    decimal, integer, is_digit, law_decimal_round_trip, law_other_texts_are_no_integers,
    lemma_decimal, parse_integer, signed_decimal,
};
use crate::text::{
    after_last, alphanumeric, ascii_capital, ascii_small, capitals, chars_of, is_letter_or_number,
    is_plain, last_part, law_last_part_is_behind_the_separator, law_upper_form_of_a_character,
    law_upper_forms_are_joined, lemma_position, lemma_position_is, lines, lines_of, position,
    same_text, stands_at, starts_with, texts, to_upper, upper, without_return,
};

verus! {

/// The letters and numbers of a SKU.
pub open spec fn sku_letters(sku: Seq<char>) -> Seq<char> {
    sku.filter(|c: char| alphanumeric(c))
}

/// The form in which SKUs are compared: letters and numbers alone, in upper case.
pub open spec fn normalized(sku: Seq<char>) -> Seq<char> {
    upper(sku_letters(sku))
}

/// The character is an ASCII letter or an ASCII digit.
pub open spec fn is_plain_letter(c: char) -> bool {
    '0' <= c <= '9' || 'a' <= c <= 'z' || 'A' <= c <= 'Z'
}

/// The ASCII letters and digits of a text.
pub open spec fn plain_letters(text: Seq<char>) -> Seq<char> {
    text.filter(|c: char| is_plain_letter(c))
}

/// The form in which SKUs of ASCII characters are compared.
pub open spec fn plain_normalized(sku: Seq<char>) -> Seq<char> {
    plain_letters(sku).map_values(|c: char| ascii_capital(c))
}

proof fn lemma_plain_letters(text: Seq<char>)
    requires
        is_plain(text),
    ensures
        is_plain(plain_letters(text)),
    decreases text.len(),
{
    reveal(Seq::filter);
    if text.len() > 0 {
        assert(text[text.len() - 1] <= '\u{7f}');
        assert forall|i: int| 0 <= i < text.drop_last().len() implies #[trigger] text.drop_last()[i]
            <= '\u{7f}' by {
            assert(text[i] <= '\u{7f}');
        }
        lemma_plain_letters(text.drop_last());
    }
}

/// The form in which SKUs are compared.
pub fn normalize_sku_for_comparison(sku: &str) -> (key: String)
    ensures
        key@ == normalized(sku@),
        is_plain(sku_letters(sku@)) ==> key@ == sku_letters(sku@).map_values(
            |c: char| ascii_capital(c),
        ),
        is_plain(sku@) ==> key@ == plain_normalized(sku@),
{
    let chars = chars_of(sku);
    let mut kept = String::new();
    for i in 0..chars.len()
        invariant
            chars@ == sku@,
            kept@ == sku_letters(sku@.take(i as int)),
            is_plain(sku@) ==> kept@ == plain_letters(sku@.take(i as int)),
    {
        proof {
            reveal(Seq::filter);
            assert(sku@.take(i + 1).drop_last() =~= sku@.take(i as int));
            assert(sku@.take(i + 1).last() == sku@[i as int]);
        }
        if is_letter_or_number(chars[i]) {
            kept.push(chars[i]);
        }
    }
    assert(sku@.take(chars.len() as int) =~= sku@);
    proof {
        if is_plain(sku@) {
            lemma_plain_letters(sku@);
        }
    }
    to_upper(kept.as_str())
}

/// The number at the end of a global identifier; zero where there is none.
pub open spec fn trailing_id(identifier: Seq<char>) -> int {
    match integer(after_last(identifier, '/')) {
        Some(n) => n,
        None => 0,
    }
}

/// The number at the end of a global identifier.
pub fn id_number(identifier: &str) -> (id: i64)
    ensures
        id == trailing_id(identifier@),
{
    let part = last_part(identifier, '/');
    match parse_integer(part.as_str()) {
        Some(n) => n,
        None => 0,
    }
}

/// The location that a setting names; zero where it names none.
pub open spec fn setting_location(raw: Seq<char>) -> int {
    match integer(raw) {
        Some(n) => n,
        None => 0,
    }
}

/// The location that a setting names; zero where it names none.
pub fn location_setting(raw: &str) -> (location: i64)
    ensures
        location == setting_location(raw@),
{
    match parse_integer(raw) {
        Some(n) => n,
        None => 0,
    }
}

/// A variant that the store found.
#[derive(Debug)]
pub struct FoundVariant {
    pub id: i64,
    pub inventory_item_id: i64,
    pub price: String,
    pub sku: String,
}

/// The model of a variant that the store found.
pub struct FoundVariantView {
    pub id: int,
    pub inventory_item_id: int,
    pub price: Seq<char>,
    pub sku: Seq<char>,
}

impl View for FoundVariant {
    type V = FoundVariantView;

    open spec fn view(&self) -> FoundVariantView {
        FoundVariantView {
            id: self.id as int,
            inventory_item_id: self.inventory_item_id as int,
            price: self.price@,
            sku: self.sku@,
        }
    }
}

/// The model of an optional variant.
pub open spec fn found_view(found: Option<FoundVariant>) -> Option<FoundVariantView> {
    match found {
        Some(variant) => Some(variant@),
        None => None,
    }
}

/// The first variant that an answer to a look-up holds.
pub open spec fn first_node(answer: JsonView) -> Option<JsonView> {
    match answer.field("data"@).field("productVariants"@).field("edges"@) {
        JsonView::Array(edges) => if edges.len() > 0 {
            Some(edges[0].field("node"@))
        } else {
            None
        },
        _ => None,
    }
}

/// The variant that a node describes, for a look-up of `sku`.
pub open spec fn node_variant(node: JsonView, sku: Seq<char>) -> FoundVariantView {
    FoundVariantView {
        id: trailing_id(node.field("id"@).text_or_empty()),
        inventory_item_id: trailing_id(node.field("inventoryItem"@).field("id"@).text_or_empty()),
        price: match node.field("price"@).as_text() {
            Some(price) => price,
            None => "0.00"@,
        },
        sku: match node.field("sku"@).as_text() {
            Some(own) => own,
            None => sku,
        },
    }
}

/// The variant that an answer gives for `sku`: its first one, where that has
/// the same SKU but for case and punctuation.
pub open spec fn found_for(answer: JsonView, sku: Seq<char>) -> Option<FoundVariantView> {
    match first_node(answer) {
        Some(node) => if normalized(node.field("sku"@).text_or_empty()) == normalized(sku) {
            Some(node_variant(node, sku))
        } else {
            None
        },
        None => None,
    }
}

/// The variant that a node describes, where its SKU compares equal to the
/// wanted one: `node_key` and `wanted_key` are the two in their compared form.
pub fn matching_variant(
    node: Option<&Json>,
    sku: &str,
    node_key: &str,
    wanted_key: &str,
) -> (found: Option<FoundVariant>)
    ensures
        found_view(found) == if node_key@ == wanted_key@ {
            Some(node_variant(seen(node), sku@))
        } else {
            None
        },
{
    if !same_text(node_key, wanted_key) {
        return None;
    }
    let id = id_number(text_or_empty(at(node, "id")));
    let inventory_item_id = id_number(text_or_empty(at(at(node, "inventoryItem"), "id")));
    let price = match text_at(at(node, "price")) {
        Some(price) => price.to_owned(),
        None => "0.00".to_owned(),
    };
    let own = match text_at(at(node, "sku")) {
        Some(own) => own.to_owned(),
        None => sku.to_owned(),
    };
    Some(FoundVariant { id, inventory_item_id, price, sku: own })
}

/// The variant that an answer to a look-up gives for `sku`.
pub fn find_variant_by_sku(answer: &Json, sku: &str) -> (found: Option<FoundVariant>)
    ensures
        found_view(found) == found_for(answer@, sku@),
{
    let edges = at(at(at(Some(answer), "data"), "productVariants"), "edges");
    match items_at(edges) {
        Some(list) => {
            if list.len() == 0 {
                return None;
            }
            let node = at(Some(&list[0]), "node");
            let node_key = normalize_sku_for_comparison(text_or_empty(at(node, "sku")));
            let wanted_key = normalize_sku_for_comparison(sku);
            matching_variant(node, sku, node_key.as_str(), wanted_key.as_str())
        },
        None => None,
    }
}

/// The location of the first stock level that an answer lists; zero where it
/// lists none.
pub open spec fn listed_location(answer: JsonView) -> int {
    match answer.field("inventory_levels"@).first_item().field("location_id"@).as_integer() {
        Some(n) => n,
        None => 0,
    }
}

/// The location of the first stock level that an answer lists.
pub fn level_location(answer: &Json) -> (location: i64)
    ensures
        location == listed_location(answer@),
{
    let level = first_at(at(Some(answer), "inventory_levels"));
    match integer_at(at(level, "location_id")) {
        Some(n) => n,
        None => 0,
    }
}

/// The inventory item of the first variant of the product that was created.
pub open spec fn created_item(answer: JsonView) -> Option<int> {
    answer.field("product"@).field("variants"@).first_item().field(
        "inventory_item_id"@,
    ).as_integer()
}

/// The inventory item of the first variant of the product that was created.
pub fn created_item_id(answer: &Json) -> (item: Option<i64>)
    ensures
        match item {
            Some(id) => created_item(answer@) == Some(id as int),
            None => created_item(answer@) is None,
        },
{
    let variant = first_at(at(at(Some(answer), "product"), "variants"));
    integer_at(at(variant, "inventory_item_id"))
}

/// The compared form of two joined texts is their compared forms joined.
pub proof fn law_compared_forms_are_joined(a: Seq<char>, b: Seq<char>)
    ensures
        sku_letters(a + b) == sku_letters(a) + sku_letters(b),
        normalized(a + b) == normalized(a) + normalized(b),
{
    Seq::filter_distributes_over_add(a, b, |c: char| alphanumeric(c));
    law_upper_forms_are_joined(sku_letters(a), sku_letters(b));
}

/// Separators never matter: a part without a letter or a number has an empty
/// compared form, and may be put into a SKU anywhere or left out of it.
pub proof fn law_separators_do_not_matter(a: Seq<char>, s: Seq<char>, b: Seq<char>)
    requires
        forall|i: int| 0 <= i < s.len() ==> !alphanumeric(#[trigger] s[i]),
    ensures
        sku_letters(s).len() == 0,
        normalized(s).len() == 0,
        normalized(a + s + b) == normalized(a + b),
{
    s.lemma_all_neg_filter_empty(|c: char| alphanumeric(c));
    law_compared_forms_are_joined(a + s, b);
    law_compared_forms_are_joined(a, s);
    law_compared_forms_are_joined(a, b);
    assert(normalized(a) + normalized(s) =~= normalized(a));
}

proof fn lemma_plain_normalized_step(text: Seq<char>)
    requires
        text.len() > 0,
    ensures
        plain_normalized(text) == if is_plain_letter(text.last()) {
            plain_normalized(text.drop_last()).push(ascii_capital(text.last()))
        } else {
            plain_normalized(text.drop_last())
        },
{
    reveal(Seq::filter);
    let front = plain_letters(text.drop_last());
    if is_plain_letter(text.last()) {
        assert(front.push(text.last()).map_values(|c: char| ascii_capital(c))
            =~= plain_normalized(text.drop_last()).push(ascii_capital(text.last())));
    }
}

/// The compared form of a text of ASCII characters is made part by part, a part
/// without a letter or a digit having an empty one.
pub proof fn law_plain_forms_are_joined(a: Seq<char>, b: Seq<char>)
    ensures
        plain_normalized(a + b) == plain_normalized(a) + plain_normalized(b),
        (forall|i: int| 0 <= i < a.len() ==> !is_plain_letter(#[trigger] a[i]))
            ==> plain_normalized(a) == Seq::<char>::empty(),
{
    let keeps = |c: char| is_plain_letter(c);
    Seq::filter_distributes_over_add(a, b, keeps);
    assert(plain_normalized(a + b) =~= plain_normalized(a) + plain_normalized(b));
    if forall|i: int| 0 <= i < a.len() ==> !is_plain_letter(#[trigger] a[i]) {
        a.lemma_all_neg_filter_empty(keeps);
        assert(plain_normalized(a) =~= Seq::<char>::empty());
    }
}

/// Comparing the compared form of a text of ASCII characters is comparing the
/// text, and so is comparing the text in small letters.
pub proof fn law_plain_form_is_stable(text: Seq<char>)
    ensures
        plain_normalized(plain_normalized(text)) == plain_normalized(text),
        plain_normalized(text.map_values(|c: char| ascii_small(c))) == plain_normalized(text),
    decreases text.len(),
{
    let small = text.map_values(|c: char| ascii_small(c));
    if text.len() == 0 {
        reveal(Seq::filter);
        assert(small =~= text);
        assert(plain_normalized(text) =~= text);
    } else {
        let front = text.drop_last();
        let last = text.last();
        law_plain_form_is_stable(front);
        lemma_plain_normalized_step(text);
        lemma_plain_normalized_step(small);
        assert(small.drop_last() =~= front.map_values(|c: char| ascii_small(c)));
        assert(small.last() == ascii_small(last));
        assert(is_plain_letter(ascii_small(last)) == is_plain_letter(last));
        assert(ascii_capital(ascii_small(last)) == ascii_capital(last) || !is_plain_letter(last));
        if is_plain_letter(last) {
            let form = plain_normalized(text);
            lemma_plain_normalized_step(form);
            assert(form.drop_last() =~= plain_normalized(front));
            assert(is_plain_letter(ascii_capital(last)));
            assert(ascii_capital(ascii_capital(last)) == ascii_capital(last));
        }
    }
}

/// The connection to the store.
#[derive(Debug)]
pub struct ShopifyService {
    pub base_url: String,
    pub access_token: String,
    /// The location of items that are stocked nowhere, once it is known.
    pub location_id: Option<i64>,
}

impl Clone for ShopifyService {
    fn clone(&self) -> (copy: Self)
        ensures
            copy == *self,
    {
        ShopifyService {
            base_url: self.base_url.clone(),
            access_token: self.access_token.clone(),
            location_id: self.location_id,
        }
    }
}

/// Why there is no fresh access token.
#[derive(Debug)]
pub enum TokenError {
    /// The request failed.
    Transport(String),
    /// The body of the answer is no document.
    Undecodable(String),
    /// The answer holds no token.
    NoToken,
    /// The store refused to give a token.
    Refused(String),
    /// The reply does not belong to the request.
    UnexpectedReply,
}

/// The model of a failure to get a token.
pub enum TokenErrorView {
    Transport(Seq<char>),
    Undecodable(Seq<char>),
    NoToken,
    Refused(Seq<char>),
    UnexpectedReply,
}

impl View for TokenError {
    type V = TokenErrorView;

    open spec fn view(&self) -> TokenErrorView {
        match self {
            TokenError::Transport(m) => TokenErrorView::Transport(m@),
            TokenError::Undecodable(m) => TokenErrorView::Undecodable(m@),
            TokenError::NoToken => TokenErrorView::NoToken,
            TokenError::Refused(t) => TokenErrorView::Refused(t@),
            TokenError::UnexpectedReply => TokenErrorView::UnexpectedReply,
        }
    }
}

impl TokenError {
    /// The message of the failure.
    pub open spec fn text(self) -> Seq<char> {
        match self {
            TokenError::Transport(m) => m@,
            TokenError::Undecodable(_) => "error decoding response body"@,
            TokenError::NoToken => "No access token in response"@,
            TokenError::Refused(t) => "Token refresh failed: "@ + t@,
            TokenError::UnexpectedReply => "unexpected reply"@,
        }
    }

    /// The message of the failure.
    pub fn message(&self) -> (message: String)
        ensures
            message@ == self.text(),
    {
        match self {
            TokenError::Transport(m) => m.clone(),
            TokenError::Undecodable(_) => "error decoding response body".to_owned(),
            TokenError::NoToken => "No access token in response".to_owned(),
            TokenError::Refused(t) => {
                let mut message = "Token refresh failed: ".to_owned();
                message.append(t.as_str());
                message
            },
            TokenError::UnexpectedReply => "unexpected reply".to_owned(),
        }
    }
}

/// The token that a reply gives.
pub open spec fn token_in(reply: ReplyView) -> Result<Seq<char>, TokenErrorView> {
    match reply {
        ReplyView::Json(answer, _) => match answer.field("access_token"@).as_text() {
            Some(token) => Ok(token),
            None => Err(TokenErrorView::NoToken),
        },
        ReplyView::ErrorText(text) => Err(TokenErrorView::Refused(text)),
        ReplyView::Undecodable(message) => Err(TokenErrorView::Undecodable(message)),
        ReplyView::Failed(message) => Err(TokenErrorView::Transport(message)),
        _ => Err(TokenErrorView::UnexpectedReply),
    }
}

/// The token that a reply gives.
pub fn token_from(reply: Reply) -> (result: Result<String, TokenError>)
    ensures
        match result {
            Ok(token) => token_in(reply@) is Ok && token_in(reply@)->Ok_0 == token@,
            Err(error) => token_in(reply@) is Err && token_in(reply@)->Err_0 == error@,
        },
{
    match reply {
        Reply::Json(answer, _) => match text_at(at(Some(&answer), "access_token")) {
            Some(token) => Ok(token.to_owned()),
            None => Err(TokenError::NoToken),
        },
        Reply::ErrorText(text) => Err(TokenError::Refused(text)),
        Reply::Undecodable(message) => Err(TokenError::Undecodable(message)),
        Reply::Failed(message) => Err(TokenError::Transport(message)),
        _ => Err(TokenError::UnexpectedReply),
    }
}

/// The store has no location.
#[derive(Debug, Clone, Copy, PartialEq, Eq, Structural)]
pub struct NoLocation;

impl NoLocation {
    /// The message of the failure.
    pub fn message(self) -> (message: String)
        ensures
            message@ == "No locations found"@,
    {
        "No locations found".to_owned()
    }
}

/// The headers of every request.
pub open spec fn request_headers(access_token: Seq<char>) -> Seq<(Seq<char>, Seq<char>)> {
    seq![
        ("X-Shopify-Access-Token"@, access_token),
        ("content-type"@, "application/json"@),
    ]
}

/// The model of a list of headers.
pub open spec fn header_view(headers: Seq<(String, String)>) -> Seq<(Seq<char>, Seq<char>)> {
    headers.map_values(|h: (String, String)| (h.0@, h.1@))
}

impl ShopifyService {
    /// The connection to the store at `store_url`.
    pub fn new(store_url: String, access_token: String) -> (service: Self)
        ensures
            service.base_url@ == base_address(store_url@),
            service.access_token@ == access_token@,
            service.location_id is None,
    {
        ShopifyService {
            base_url: base_url(store_url.as_str()),
            access_token,
            location_id: None,
        }
    }

    /// The address of the store's programming interface.
    pub fn api_base_url(&self) -> (url: &str)
        ensures
            url@ == self.base_url@,
    {
        self.base_url.as_str()
    }

    /// The headers of every request.
    pub fn headers(&self) -> (headers: Vec<(String, String)>)
        ensures
            header_view(headers@) == request_headers(self.access_token@),
    {
        let mut headers: Vec<(String, String)> = Vec::new();
        headers.push(("X-Shopify-Access-Token".to_owned(), self.access_token.clone()));
        headers.push(("content-type".to_owned(), "application/json".to_owned()));
        assert(header_view(headers@) =~= request_headers(self.access_token@));
        headers
    }

    /// Asks for a fresh access token.
    pub fn refresh_daily_token(&self, store_url: &str, client_id: &str, client_secret: &str) -> (request:
        Request)
        ensures
            request@ == token(store_url@, client_id@, client_secret@),
    {
        token_request(store_url, client_id, client_secret)
    }

    /// Takes a fresh access token into use.
    pub fn use_token(&mut self, new_token: String)
        ensures
            final(self).access_token@ == new_token@,
            final(self).base_url == old(self).base_url,
            final(self).location_id == old(self).location_id,
    {
        self.access_token = new_token;
    }

    /// The location, where it is known already or a setting names it. It is
    /// known from then on.
    pub fn get_location_id(&mut self, setting: Option<&str>) -> (location: Option<i64>)
        ensures
            final(self).base_url == old(self).base_url,
            final(self).access_token == old(self).access_token,
            final(self).location_id == location,
            match old(self).location_id {
                Some(known) => location == Some(known),
                None => match setting {
                    Some(raw) => match location {
                        Some(id) => integer(raw@) == Some(id as int),
                        None => integer(raw@) is None,
                    },
                    None => location is None,
                },
            },
    {
        if let Some(id) = self.location_id {
            return Some(id);
        }
        if let Some(raw) = setting {
            if let Some(id) = parse_integer(raw) {
                self.location_id = Some(id);
                return Some(id);
            }
        }
        None
    }

    /// Asks for the locations of the store.
    pub fn locations_request(&self) -> (request: Request)
        ensures
            request@ == (RequestView {
                method: Method::Get,
                url: self.base_url@ + "/locations.json"@,
                body: None,
                read: ReadMode::Json,
            }),
    {
        let mut url = self.base_url.clone();
        url.append("/locations.json");
        Request { method: Method::Get, url, body: None, read: ReadMode::Json }
    }

    /// Takes the first of the store's locations, where there is one. It is
    /// known from then on.
    pub fn choose_location(&mut self, response: &ShopifyLocationsResponse) -> (location: Result<
        i64,
        NoLocation,
    >)
        ensures
            final(self).base_url == old(self).base_url,
            final(self).access_token == old(self).access_token,
            match location {
                Ok(id) => response.locations@.len() > 0 && id == response.locations@[0].id
                    && final(self).location_id == Some(id),
                Err(_) => response.locations@.len() == 0 && final(self).location_id == old(
                    self,
                ).location_id,
            },
    {
        if response.locations.len() == 0 {
            return Err(NoLocation);
        }
        let id = response.locations[0].id;
        self.location_id = Some(id);
        Ok(id)
    }
}

/// The line sets the access token.
pub open spec fn is_token_line(line: Seq<char>) -> bool {
    stands_at(line, "SHOPIFY_ACCESS_TOKEN="@, 0) || stands_at(line, "ACCESS_TOKEN="@, 0)
}

/// The line that sets the access token to `token`.
pub open spec fn token_line(token: Seq<char>) -> Seq<char> {
    "SHOPIFY_ACCESS_TOKEN="@ + token
}

/// The lines with each one that sets the token replaced.
pub open spec fn replaced_lines(old_lines: Seq<Seq<char>>, token: Seq<char>) -> Seq<Seq<char>> {
    old_lines.map_values(
        |line: Seq<char>|
            if is_token_line(line) {
                token_line(token)
            } else {
                line
            },
    )
}

/// The lines of the settings file once the token is set: each line that sets it
/// is replaced; where none does, one is added at the end.
pub open spec fn settings_lines(old_lines: Seq<Seq<char>>, token: Seq<char>) -> Seq<Seq<char>> {
    if exists|i: int| 0 <= i < old_lines.len() && is_token_line(#[trigger] old_lines[i]) {
        replaced_lines(old_lines, token)
    } else {
        replaced_lines(old_lines, token).push(token_line(token))
    }
}

/// The text of a file with these lines, each ended by a line feed.
pub open spec fn file_of(file_lines: Seq<Seq<char>>) -> Seq<char>
    decreases file_lines.len(),
{
    if file_lines.len() == 0 {
        seq![]
    } else {
        file_of(file_lines.drop_last()) + file_lines.last() + "\n"@
    }
}

/// The settings file with the access token set to `new_token`.
pub fn update_env_file(content: &str, new_token: &str) -> (out: String)
    ensures
        out@ == file_of(settings_lines(lines_of(content@), new_token@)),
{
    let old_lines = lines(content);
    let ghost model = lines_of(content@);
    let mut out = String::new();
    let mut found = false;
    let line_of_token = {
        let mut line = "SHOPIFY_ACCESS_TOKEN=".to_owned();
        line.append(new_token);
        line
    };
    for i in 0..old_lines.len()
        invariant
            texts(old_lines@) == model,
            line_of_token@ == token_line(new_token@),
            found == exists|j: int| 0 <= j < i && is_token_line(#[trigger] model[j]),
            out@ == file_of(replaced_lines(model, new_token@).take(i as int)),
    {
        let line = old_lines[i].as_str();
        assert(model[i as int] == line@);
        proof {
            let upto = replaced_lines(model, new_token@).take(i + 1);
            assert(upto.drop_last() =~= replaced_lines(model, new_token@).take(i as int));
        }
        if starts_with(line, "SHOPIFY_ACCESS_TOKEN=") || starts_with(line, "ACCESS_TOKEN=") {
            out.append(line_of_token.as_str());
            found = true;
            assert(is_token_line(model[i as int]));
        } else {
            out.append(line);
        }
        out.append("\n");
    }
    proof {
        let all = replaced_lines(model, new_token@);
        assert(all.take(old_lines.len() as int) =~= all);
        assert(all.push(token_line(new_token@)).drop_last() =~= all);
    }
    if !found {
        out.append(line_of_token.as_str());
        out.append("\n");
    }
    out
}

/// Setting the token keeps every other line of the settings file, in its place.
pub proof fn law_other_settings_stay(old_lines: Seq<Seq<char>>, token: Seq<char>, i: int)
    requires
        0 <= i < old_lines.len(),
        !is_token_line(old_lines[i]),
    ensures
        settings_lines(old_lines, token)[i] == old_lines[i],
{
}

/// Once the token is set, the settings file sets it, and to nothing else.
pub proof fn law_token_is_set(old_lines: Seq<Seq<char>>, token: Seq<char>)
    ensures
        settings_lines(old_lines, token).contains(token_line(token)),
        forall|i: int|
            0 <= i < settings_lines(old_lines, token).len() && is_token_line(
                #[trigger] settings_lines(old_lines, token)[i],
            ) ==> settings_lines(old_lines, token)[i] == token_line(token),
{
    let new_lines = settings_lines(old_lines, token);
    if exists|i: int| 0 <= i < old_lines.len() && is_token_line(#[trigger] old_lines[i]) {
        let i = choose|i: int| 0 <= i < old_lines.len() && is_token_line(#[trigger] old_lines[i]);
        assert(new_lines[i] == token_line(token));
    } else {
        assert(new_lines[new_lines.len() - 1] == token_line(token));
    }
}

/// A line that a file gives back: it holds no line feed and ends with no
/// carriage return.
pub open spec fn is_clean_line(line: Seq<char>) -> bool {
    &&& forall|i: int| 0 <= i < line.len() ==> #[trigger] line[i] != '\n'
    &&& line.len() > 0 ==> line.last() != '\r'
}

/// A line that holds no line feed.
pub open spec fn holds_no_feed(line: Seq<char>) -> bool {
    forall|i: int| 0 <= i < line.len() ==> #[trigger] line[i] != '\n'
}

/// Reading a written file gives the written lines back, each without the
/// carriage return that may end it.
pub proof fn law_file_is_read_back(file_lines: Seq<Seq<char>>)
    requires
        forall|i: int| 0 <= i < file_lines.len() ==> holds_no_feed(#[trigger] file_lines[i]),
    ensures
        lines_of(file_of(file_lines)) == file_lines.map_values(
            |line: Seq<char>| without_return(line),
        ),
{
    let read = file_lines.map_values(|line: Seq<char>| without_return(line));
    assert(file_of(file_lines) + Seq::<char>::empty() =~= file_of(file_lines));
    assert(lines_of(Seq::<char>::empty()) =~= Seq::<Seq<char>>::empty());
    lemma_lines_of_file(file_lines, Seq::empty());
    assert(read + Seq::<Seq<char>>::empty() =~= read);
}

/// Reading a written file gives the written lines back.
pub proof fn law_file_round_trip(file_lines: Seq<Seq<char>>)
    requires
        forall|i: int| 0 <= i < file_lines.len() ==> is_clean_line(#[trigger] file_lines[i]),
    ensures
        lines_of(file_of(file_lines)) == file_lines,
{
    assert forall|i: int| 0 <= i < file_lines.len() implies holds_no_feed(
        #[trigger] file_lines[i],
    ) by {
        assert(is_clean_line(file_lines[i]));
    }
    law_file_is_read_back(file_lines);
    assert(file_lines.map_values(|line: Seq<char>| without_return(line)) =~= file_lines) by {
        assert forall|i: int| 0 <= i < file_lines.len() implies without_return(
            #[trigger] file_lines[i],
        ) == file_lines[i] by {
            assert(is_clean_line(file_lines[i]));
        }
    }
}

proof fn lemma_lines_hold_no_feed(s: Seq<char>)
    ensures
        forall|i: int, j: int|
            0 <= i < lines_of(s).len() && 0 <= j < lines_of(s)[i].len()
                ==> #[trigger] lines_of(s)[i][j] != '\n',
    decreases s.len(),
{
    lemma_position(s, '\n');
    if let Some(p) = position(s, '\n') {
        let first = without_return(s.take(p));
        let rest = lines_of(s.skip(p + 1));
        lemma_lines_hold_no_feed(s.skip(p + 1));
        assert(lines_of(s) =~= seq![first] + rest);
        assert forall|i: int, j: int|
            0 <= i < lines_of(s).len() && 0 <= j < lines_of(s)[i].len() implies #[trigger] lines_of(
            s,
        )[i][j] != '\n' by {
            if i == 0 {
                assert(first[j] == s[j]);
            } else {
                assert(lines_of(s)[i][j] == rest[i - 1][j]);
            }
        }
    }
}

/// The settings file, read after the token was set, sets it, whatever the file
/// held. The token is to hold no line feed and not to end with a carriage
/// return, which would be lost in reading.
pub proof fn law_token_is_kept(content: Seq<char>, token: Seq<char>)
    requires
        is_clean_line(token_line(token)),
    ensures
        lines_of(file_of(settings_lines(lines_of(content), token))).contains(token_line(token)),
{
    let old_lines = lines_of(content);
    let new_lines = settings_lines(old_lines, token);
    lemma_clean_token(token);
    lemma_settings_hold_no_feed(content, token);
    law_file_is_read_back(new_lines);
    law_token_is_set(old_lines, token);
    let read = new_lines.map_values(|line: Seq<char>| without_return(line));
    let i = choose|i: int| 0 <= i < new_lines.len() && new_lines[i] == token_line(token);
    assert(read[i] == token_line(token));
}

proof fn lemma_clean_token(token: Seq<char>)
    requires
        is_clean_line(token_line(token)),
    ensures
        holds_no_feed(token),
{
    let line = token_line(token);
    let head = "SHOPIFY_ACCESS_TOKEN="@;
    assert forall|i: int| 0 <= i < token.len() implies #[trigger] token[i] != '\n' by {
        assert(line[head.len() + i] == token[i]);
    }
}

proof fn lemma_settings_hold_no_feed(content: Seq<char>, token: Seq<char>)
    requires
        holds_no_feed(token),
    ensures
        forall|i: int|
            0 <= i < settings_lines(lines_of(content), token).len() ==> holds_no_feed(
                #[trigger] settings_lines(lines_of(content), token)[i],
            ),
{
    let old_lines = lines_of(content);
    let new_lines = settings_lines(old_lines, token);
    lemma_lines_hold_no_feed(content);
    assert(holds_no_feed(token_line(token))) by {
        reveal_strlit("SHOPIFY_ACCESS_TOKEN=");
    }
    assert forall|i: int| 0 <= i < new_lines.len() implies holds_no_feed(#[trigger] new_lines[i]) by {
        if i < old_lines.len() {
            assert(holds_no_feed(old_lines[i])) by {
                assert forall|j: int| 0 <= j < old_lines[i].len() implies #[trigger] old_lines[i][j]
                    != '\n' by {
                    assert(lines_of(content)[i][j] != '\n');
                }
            }
        }
    }
}

/// The settings file, read after the token was set, has the lines that it had,
/// with the token set. The token is to hold no line feed, and neither it nor a
/// line that stays is to end with a carriage return, which would be lost in
/// reading.
pub proof fn law_token_is_read_back(content: Seq<char>, token: Seq<char>)
    requires
        is_clean_line(token_line(token)),
        forall|i: int|
            0 <= i < lines_of(content).len() && !is_token_line(lines_of(content)[i])
                && lines_of(content)[i].len() > 0 ==> (#[trigger] lines_of(content)[i]).last()
                != '\r',
    ensures
        lines_of(file_of(settings_lines(lines_of(content), token))) == settings_lines(
            lines_of(content),
            token,
        ),
{
    let old_lines = lines_of(content);
    let new_lines = settings_lines(old_lines, token);
    lemma_clean_token(token);
    lemma_settings_hold_no_feed(content, token);
    assert forall|i: int| 0 <= i < new_lines.len() implies is_clean_line(#[trigger] new_lines[i]) by {
        assert(holds_no_feed(new_lines[i]));
        if i < old_lines.len() && !is_token_line(old_lines[i]) {
            assert(new_lines[i] == old_lines[i]);
        }
    }
    law_file_round_trip(new_lines);
}

/// Setting a token and then another leaves the settings file as setting the
/// other alone does. The first token is to hold no line feed, and no line that
/// stays is to end with a carriage return, which would be lost in reading.
pub proof fn law_last_token_counts(content: Seq<char>, first: Seq<char>, last: Seq<char>)
    requires
        holds_no_feed(first),
        forall|i: int|
            0 <= i < lines_of(content).len() && !is_token_line(lines_of(content)[i])
                && lines_of(content)[i].len() > 0 ==> (#[trigger] lines_of(content)[i]).last()
                != '\r',
    ensures
        ({
            let once = file_of(settings_lines(lines_of(content), first));
            file_of(settings_lines(lines_of(once), last)) == file_of(
                settings_lines(lines_of(content), last),
            )
        }),
{
    let old_lines = lines_of(content);
    let new_lines = settings_lines(old_lines, first);
    let read = new_lines.map_values(|line: Seq<char>| without_return(line));
    let set = without_return(token_line(first));
    lemma_settings_hold_no_feed(content, first);
    law_file_is_read_back(new_lines);
    lemma_token_line(first);
    assert forall|i: int| 0 <= i < old_lines.len() implies (#[trigger] read[i]) == if is_token_line(
        old_lines[i],
    ) {
        set
    } else {
        old_lines[i]
    } by {}
    if exists|i: int| 0 <= i < old_lines.len() && is_token_line(#[trigger] old_lines[i]) {
        let i = choose|i: int| 0 <= i < old_lines.len() && is_token_line(#[trigger] old_lines[i]);
        assert(is_token_line(read[i]));
    } else {
        assert(read[old_lines.len() as int] == set);
        assert(is_token_line(read[old_lines.len() as int]));
    }
    assert(settings_lines(read, last) =~= settings_lines(old_lines, last));
}

proof fn lemma_token_line(token: Seq<char>)
    ensures
        is_token_line(token_line(token)),
        is_token_line(without_return(token_line(token))),
{
    reveal_strlit("SHOPIFY_ACCESS_TOKEN=");
    let head = "SHOPIFY_ACCESS_TOKEN="@;
    let line = token_line(token);
    let cut = without_return(line);
    assert(line.subrange(0, head.len() as int) =~= head);
    assert(head[head.len() - 1] == '=');
    assert(line.last() == '\r' ==> token.len() > 0);
    assert(cut.subrange(0, head.len() as int) =~= head);
}

proof fn lemma_lines_of_file(file_lines: Seq<Seq<char>>, rest: Seq<char>)
    requires
        forall|i: int| 0 <= i < file_lines.len() ==> holds_no_feed(#[trigger] file_lines[i]),
    ensures
        lines_of(file_of(file_lines) + rest) == file_lines.map_values(
            |line: Seq<char>| without_return(line),
        ) + lines_of(rest),
    decreases file_lines.len(),
{
    let read = file_lines.map_values(|line: Seq<char>| without_return(line));
    if file_lines.len() == 0 {
        assert(file_of(file_lines) + rest =~= rest);
        assert(read + lines_of(rest) =~= lines_of(rest));
    } else {
        let line = file_lines.last();
        let front = file_lines.drop_last();
        reveal_strlit("\n");
        let tail = line + "\n"@ + rest;
        assert forall|i: int| 0 <= i < front.len() implies holds_no_feed(#[trigger] front[i]) by {
            assert(front[i] == file_lines[i]);
        }
        assert(file_of(file_lines) + rest =~= file_of(front) + tail);
        lemma_lines_of_file(front, tail);
        assert(holds_no_feed(file_lines[file_lines.len() - 1]));
        lemma_position_is(tail, '\n', line.len() as int);
        assert(tail.take(line.len() as int) =~= line);
        assert(tail.skip(line.len() as int + 1) =~= rest);
        assert(lines_of(tail) =~= seq![without_return(line)] + lines_of(rest));
        assert(front.map_values(|line: Seq<char>| without_return(line)) + (seq![
            without_return(line),
        ] + lines_of(rest)) =~= read + lines_of(rest));
    }
}

/// The variant that an answer gives is its first one, by its own identifiers, and
/// exactly where its SKU and the wanted one compare equal.
pub proof fn law_first_variant_is_found(answer: JsonView, sku: Seq<char>)
    ensures
        ({
            let edges = answer.field("data"@).field("productVariants"@).field("edges"@);
            let node = edges->Array_0[0].field("node"@);
            let own = node.field("sku"@).text_or_empty();
            let listed = edges is Array && edges->Array_0.len() > 0;
            &&& found_for(answer, sku) is Some <==> listed && normalized(own) == normalized(sku)
            &&& found_for(answer, sku) matches Some(found) ==> {
                &&& found.id == trailing_id(node.field("id"@).text_or_empty())
                &&& found.inventory_item_id == trailing_id(
                    node.field("inventoryItem"@).field("id"@).text_or_empty(),
                )
                &&& node.field("price"@) is Text ==> found.price == node.field("price"@)->Text_0
                &&& !(node.field("price"@) is Text) ==> found.price == "0.00"@
                &&& node.field("sku"@) is Text ==> found.sku == own
                &&& !(node.field("sku"@) is Text) ==> found.sku == sku
            }
        }),
{
}

/// A global identifier that ends with a number gives that number, whatever
/// stands before its last stroke.
pub proof fn law_identifier_gives_its_number(head: Seq<char>, tail: Seq<char>, n: i64)
    ensures
        integer(tail) is Some ==> trailing_id(head.push('/') + tail) == integer(tail)->0
            && trailing_id(tail) == integer(tail)->0 && setting_location(tail) == integer(tail)->0,
        trailing_id(head.push('/') + signed_decimal(n as int)) == n,
        trailing_id(signed_decimal(n as int)) == n,
        setting_location(signed_decimal(n as int)) == n,
{
    law_decimal_round_trip(n);
    let number = signed_decimal(n as int);
    lemma_signed_decimal_has_no_stroke(n as int);
    law_last_part_is_behind_the_separator(head, number, '/');
    if integer(tail) is Some {
        assert forall|i: int| 0 <= i < tail.len() implies #[trigger] tail[i] != '/' by {
            if tail[i] == '/' {
                law_other_texts_are_no_integers(tail, i);
            }
        }
        law_last_part_is_behind_the_separator(head, tail, '/');
    }
}

proof fn lemma_signed_decimal_has_no_stroke(n: int)
    ensures
        forall|i: int|
            0 <= i < signed_decimal(n).len() ==> #[trigger] signed_decimal(n)[i] != '/',
{
    let s = signed_decimal(n);
    if n < 0 {
        lemma_decimal((-n) as nat);
        let digits = decimal((-n) as nat);
        assert forall|i: int| 0 <= i < s.len() implies #[trigger] s[i] != '/' by {
            if i > 0 {
                assert(s[i] == digits[i - 1]);
                assert(is_digit(digits[i - 1]));
            }
        }
    } else {
        lemma_decimal(n as nat);
        assert forall|i: int| 0 <= i < s.len() implies #[trigger] s[i] != '/' by {
            assert(is_digit(s[i]));
        }
    }
}

/// An identifier whose last part is no number gives zero, and so does a setting
/// that is none.
pub proof fn law_other_identifiers_give_zero(head: Seq<char>, tail: Seq<char>)
    requires
        forall|i: int| 0 <= i < tail.len() ==> #[trigger] tail[i] != '/',
        integer(tail) is None,
    ensures
        trailing_id(head.push('/') + tail) == 0,
        trailing_id(tail) == 0,
        setting_location(tail) == 0,
{
    law_last_part_is_behind_the_separator(head, tail, '/');
}

/// The location of an item is that of the first level that is listed, and zero
/// where none is.
pub proof fn law_first_level_gives_the_location(answer: JsonView)
    ensures
        ({
            let levels = answer.field("inventory_levels"@);
            let id = levels->Array_0[0].field("location_id"@);
            let listed = levels is Array && levels->Array_0.len() > 0 && id is Integer;
            &&& listed ==> listed_location(answer) == id->Integer_0
            &&& !listed ==> listed_location(answer) == 0
        }),
{
}

/// The item of a created product is that of its first variant.
pub proof fn law_first_variant_gives_the_item(answer: JsonView)
    ensures
        ({
            let variants = answer.field("product"@).field("variants"@);
            let id = variants->Array_0[0].field("inventory_item_id"@);
            let named = variants is Array && variants->Array_0.len() > 0 && id is Integer;
            &&& named ==> created_item(answer) == Some(id->Integer_0)
            &&& !named ==> created_item(answer) is None
        }),
{
}

/// A single character compares as its capitals where it is a letter or a number,
/// and as nothing where it is none.
pub proof fn law_compared_form_of_a_character(c: char)
    ensures
        normalized(seq![c]) == if alphanumeric(c) {
            capitals(c)
        } else {
            Seq::<char>::empty()
        },
        normalized(Seq::<char>::empty()) == Seq::<char>::empty(),
{
    reveal(Seq::filter);
    law_upper_form_of_a_character(c);
    assert(seq![c].drop_last() =~= Seq::<char>::empty());
    assert(sku_letters(Seq::<char>::empty()) =~= Seq::<char>::empty());
    assert(sku_letters(seq![c]) =~= if alphanumeric(c) {
        sku_letters(seq![c].drop_last()).push(c)
    } else {
        sku_letters(seq![c].drop_last())
    });
    assert(Seq::<char>::empty().push(c) =~= seq![c]);
}

/// A reply gives the token that it holds; without one, and on a refusal or a
/// failure, it gives none and says why.
pub proof fn law_token_of_a_reply(
    answer: JsonView,
    body: Seq<u8>,
    token: Seq<char>,
    text: Seq<char>,
)
    ensures
        answer.field("access_token"@) == JsonView::Text(token) ==> token_in(
            ReplyView::Json(answer, body),
        ) == Ok::<Seq<char>, TokenErrorView>(token),
        !(answer.field("access_token"@) is Text) ==> token_in(ReplyView::Json(answer, body))
            == Err::<Seq<char>, TokenErrorView>(TokenErrorView::NoToken),
        token_in(ReplyView::ErrorText(text)) == Err::<Seq<char>, TokenErrorView>(
            TokenErrorView::Refused(text),
        ),
        token_in(ReplyView::Failed(text)) == Err::<Seq<char>, TokenErrorView>(
            TokenErrorView::Transport(text),
        ),
        token_in(ReplyView::Undecodable(text)) == Err::<Seq<char>, TokenErrorView>(
            TokenErrorView::Undecodable(text),
        ),
{
}

/// Every request carries the access token.
pub proof fn law_requests_carry_the_token(access_token: Seq<char>)
    ensures
        request_headers(access_token).contains(("X-Shopify-Access-Token"@, access_token)),
        request_headers(access_token).contains(("content-type"@, "application/json"@)),
        request_headers(access_token).len() == 2,
{
    let headers = request_headers(access_token);
    assert(headers[0] == ("X-Shopify-Access-Token"@, access_token));
    assert(headers[1] == ("content-type"@, "application/json"@));
}

/// A line sets the token exactly where it begins with one of its two names; it is
/// written with the longer one.
pub proof fn law_token_lines(line: Seq<char>, token: Seq<char>)
    ensures
        is_token_line(line) <==> (exists|rest: Seq<char>|
            line == #[trigger] ("SHOPIFY_ACCESS_TOKEN="@ + rest) || line == "ACCESS_TOKEN="@ + rest),
        token_line(token) == "SHOPIFY_ACCESS_TOKEN="@ + token,
{
    let long = "SHOPIFY_ACCESS_TOKEN="@;
    let short = "ACCESS_TOKEN="@;
    if stands_at(line, long, 0) {
        assert(line =~= long + line.skip(long.len() as int));
    }
    if stands_at(line, short, 0) {
        let rest = line.skip(short.len() as int);
        assert(line =~= short + rest);
        assert((long + rest).len() >= 0);
    }
    if exists|rest: Seq<char>|
        line == #[trigger] (long + rest) || line == short + rest {
        let rest = choose|rest: Seq<char>|
            line == #[trigger] (long + rest) || line == short + rest;
        if line == long + rest {
            assert(line.subrange(0, long.len() as int) =~= long);
        } else {
            assert(line.subrange(0, short.len() as int) =~= short);
        }
    }
}

/// Setting the token adds a line only where none set it.
pub proof fn law_no_line_is_lost(old_lines: Seq<Seq<char>>, token: Seq<char>, i: int)
    ensures
        0 <= i < old_lines.len() && is_token_line(old_lines[i]) ==> settings_lines(
            old_lines,
            token,
        ).len() == old_lines.len(),
        (forall|j: int| 0 <= j < old_lines.len() ==> !is_token_line(#[trigger] old_lines[j]))
            ==> settings_lines(old_lines, token) == old_lines.push(token_line(token)),
{
    if forall|j: int| 0 <= j < old_lines.len() ==> !is_token_line(#[trigger] old_lines[j]) {
        assert(replaced_lines(old_lines, token) =~= old_lines);
    }
}

/// The failure to get a token is told in the words of the store.
pub proof fn law_missing_tokens_are_told(words: String)
    ensures
        TokenError::Transport(words).text() == words@,
        TokenError::Undecodable(words).text() == "error decoding response body"@,
        TokenError::NoToken.text() == "No access token in response"@,
        TokenError::Refused(words).text() == "Token refresh failed: "@ + words@,
{
}

} // verus!
