use paperclip::operation::{
    Container, FnArg, GenericArgument, ItemFn, OperationProducer, ParamSource, PathArguments, ReturnType,
    Segment, TypeRepr,
};

fn plain(ident: &str) -> Segment {
    Segment { ident: String::from(ident), arguments: PathArguments::Nothing }
}

fn ty(ident: &str) -> TypeRepr {
    TypeRepr::Path(vec![plain(ident)])
}

fn wrapped(container: &str, inner: TypeRepr) -> TypeRepr {
    TypeRepr::Path(vec![
        plain("web"),
        Segment {
            ident: String::from(container),
            arguments: PathArguments::AngleBracketed(vec![GenericArgument::Type(inner)]),
        },
    ])
}

fn ident_of(t: &TypeRepr) -> &str {
    match t {
        TypeRepr::Path(segs) => segs[segs.len() - 1].ident.as_str(),
        _ => "",
    }
}

#[test]
fn container_kinds() {
    assert!(Container::Json.is_format());
    assert!(!Container::Path.is_format());
    assert!(Container::Path.is_extractor());
    assert!(Container::Query.is_extractor());
    assert!(!Container::Json.is_extractor());
    assert_eq!(Container::Query.as_str(), "Query");
}

#[test]
fn matches_finds_the_container_of_the_last_segment() {
    let t = wrapped("Json", ty("Pet"));
    match Container::matches(&t) {
        Some((c, inner)) => {
            assert_eq!(c, Container::Json);
            assert_eq!(ident_of(inner), "Pet");
        },
        None => panic!("expected a container"),
    }
    assert!(Container::matches(&wrapped("Vec", ty("Pet"))).is_none());
    assert!(Container::matches(&ty("Json")).is_none());
    assert!(Container::matches(&TypeRepr::Tuple(vec![])).is_none());
    let no_type = TypeRepr::Path(vec![Segment {
        ident: String::from("Path"),
        arguments: PathArguments::AngleBracketed(vec![GenericArgument::Other]),
    }]);
    assert!(Container::matches(&no_type).is_none());
}

#[test]
fn generate_definition_collects_parameters_in_order() {
    let f = ItemFn {
        inputs: vec![
            FnArg::Other,
            FnArg::Captured(wrapped("Json", ty("Pet"))),
            FnArg::Captured(wrapped("Path", TypeRepr::Tuple(vec![ty("String"), ty("u64")]))),
            FnArg::Captured(wrapped("Query", ty("Filter"))),
            FnArg::Captured(wrapped("Json", ty("Other"))),
            FnArg::Captured(ty("HttpRequest")),
        ],
        output: ReturnType::Type(wrapped("Json", ty("Vec"))),
    };
    let op = OperationProducer::new(&f).generate_definition().unwrap();
    assert_eq!(op.params.len(), 4);
    match &op.params[0] {
        ParamSource::Body(t) => assert_eq!(ident_of(t), "Pet"),
        _ => panic!("expected the body"),
    }
    match &op.params[1] {
        ParamSource::PathElement(t) => assert_eq!(ident_of(t), "String"),
        _ => panic!("expected a path element"),
    }
    match &op.params[2] {
        ParamSource::PathElement(t) => assert_eq!(ident_of(t), "u64"),
        _ => panic!("expected a path element"),
    }
    match &op.params[3] {
        ParamSource::Properties(c, name) => {
            assert_eq!(*c, Container::Query);
            assert_eq!(*name, "Filter");
        },
        _ => panic!("expected properties"),
    }
    assert_eq!(ident_of(op.body_schema.unwrap()), "Pet");
    assert_eq!(ident_of(op.response.unwrap()), "Vec");
}

#[test]
fn generate_definition_without_a_data_response() {
    let f = ItemFn {
        inputs: vec![FnArg::Captured(wrapped("Path", ty("Params")))],
        output: ReturnType::Type(ty("HttpResponse")),
    };
    let op = OperationProducer::new(&f).generate_definition().unwrap();
    assert_eq!(op.params.len(), 1);
    match &op.params[0] {
        ParamSource::Properties(c, name) => {
            assert_eq!(*c, Container::Path);
            assert_eq!(*name, "Params");
        },
        _ => panic!("expected properties"),
    }
    assert!(op.response.is_none());
    assert!(op.body_schema.is_none());
}

#[test]
fn generate_definition_needs_a_return_type() {
    let f = ItemFn { inputs: vec![], output: ReturnType::Default };
    match OperationProducer::new(&f).generate_definition() {
        Err(m) => assert_eq!(m, "function must return something"),
        Ok(_) => panic!("expected an error"),
    }
}
