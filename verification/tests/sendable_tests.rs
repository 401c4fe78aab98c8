use paperclip::models::{CollectionFormat, HttpMethod, ParameterIn};
use paperclip::object::{ApiObjectBuilder, Parameter};
use paperclip::sendable::{sendable_fields, Coding, OperationBuilder, ResponseHeader, SendableCodegen, SendableField};

fn json() -> Coding {
    Coding {
        range: String::from("application/json"),
        encoder_path: String::from("serde_json::to_writer"),
        any_value: String::from("serde_json::Value"),
    }
}

fn field(name: &str, ident: &str, required: bool, loc: ParameterIn) -> SendableField {
    SendableField {
        name: String::from(name),
        ident: String::from(ident),
        required,
        param_loc: Some(loc),
        delimiting: vec![],
        needs_file: false,
    }
}

fn builder() -> OperationBuilder {
    OperationBuilder {
        ty_name: String::from("PetGetBuilder"),
        rel_path: Some(String::from("/pets/{id}")),
        method: Some(HttpMethod::Get),
        helper_module_prefix: String::from("crate::"),
        needs_any: false,
        any_generic: String::from("<Any: serde::Serialize>"),
        needs_container: false,
        is_list_op: true,
        body_required: false,
        response_is_file: false,
        response_ty_path: Some(String::from("Pet")),
        response_contains_any: false,
        response_headers: vec![],
        encoding: None,
        decoding: None,
        fields: vec![
            field("id", "id", true, ParameterIn::Path),
            field("limit", "limit", true, ParameterIn::Query),
            field("X-Trace", "x_trace", false, ParameterIn::Header),
        ],
    }
}

fn render(b: &OperationBuilder) -> String {
    let mut out = String::new();
    SendableCodegen::from(b).write_impl_if_needed(&mut out, &json()).unwrap();
    out
}

#[test]
fn get_with_path_query_and_header_parameters() {
    let expected = String::new()
        + "\nimpl<Client: crate::client::ApiClient + Sync + 'static> crate::client::Sendable<Client> for PetGetBuilder {"
        + "\n    type Output = Vec<Pet>;"
        + "\n\n    const METHOD: http::Method = http::Method::GET;"
        + "\n\n    fn rel_path(&self) -> std::borrow::Cow<'static, str> {"
        + "\n        format!(\"/pets/{id}\", id=self.param_id.as_ref().expect(\"missing parameter id?\")).into()"
        + "\n    }"
        + "\n\n    fn modify(&self, req: Client::Request) -> Result<Client::Request, crate::client::ApiError<Client::Response>> {"
        + "\n        use crate::client::Request;"
        + "\n        let mut req = req;"
        + "\n        if let Some(v) = &self.param_x_trace.as_ref().map(std::string::ToString::to_string) {"
        + "\n            req = req.header(\"X-Trace\", &v);"
        + "\n        }"
        + "\n"
        + "\n        Ok(req"
        + "\n        .query(&["
        + "\n            (\"limit\", self.param_limit.as_ref().map(std::string::ToString::to_string))"
        + "\n        ])"
        + ")\n    }"
        + "\n}\n";
    assert_eq!(render(&builder()), expected);
}

#[test]
fn builder_without_operation_writes_nothing() {
    let mut b = builder();
    b.method = None;
    assert_eq!(render(&b), "");
}

#[test]
fn static_path_without_parameters_needs_no_modify() {
    let mut b = builder();
    b.rel_path = Some(String::from("/pets"));
    b.is_list_op = false;
    b.fields = vec![];
    let expected = String::new()
        + "\nimpl<Client: crate::client::ApiClient + Sync + 'static> crate::client::Sendable<Client> for PetGetBuilder {"
        + "\n    type Output = Pet;"
        + "\n\n    const METHOD: http::Method = http::Method::GET;"
        + "\n\n    fn rel_path(&self) -> std::borrow::Cow<'static, str> {"
        + "\n        \"/pets\".into()"
        + "\n    }"
        + "\n}\n";
    assert_eq!(render(&b), expected);
}

#[test]
fn post_with_encoded_body_form_and_response_headers() {
    let mut b = builder();
    b.ty_name = String::from("PetPostBuilder<Any>");
    b.rel_path = Some(String::from("/pets"));
    b.method = Some(HttpMethod::Post);
    b.needs_any = true;
    b.needs_container = true;
    b.is_list_op = false;
    b.body_required = true;
    b.response_ty_path = None;
    b.encoding = Some(Coding {
        range: String::from("application/yaml"),
        encoder_path: String::from("serde_yaml::to_writer"),
        any_value: String::from("serde_yaml::Value"),
    });
    b.response_headers = vec![ResponseHeader {
        name: String::from("X-Rate-Limit"),
        description: None,
        wrapped_ty: String::from("i64"),
    }];
    let mut tags = field("tags", "tags", false, ParameterIn::Query);
    tags.delimiting = vec![CollectionFormat::Multi];
    let mut file = field("file", "file", false, ParameterIn::FormData);
    file.needs_file = true;
    b.fields = vec![tags, field("name", "name", false, ParameterIn::FormData), file];
    let expected = String::new()
        + "\nimpl<Client: crate::client::ApiClient + Sync + 'static, Any: serde::Serialize> crate::client::Sendable<Client> for PetPostBuilder<Any> {"
        + "\n    type Output = serde_json::Value;"
        + "\n\n    const METHOD: http::Method = http::Method::POST;"
        + "\n\n    fn rel_path(&self) -> std::borrow::Cow<'static, str> {"
        + "\n        \"/pets\".into()"
        + "\n    }"
        + "\n\n    fn modify(&self, req: Client::Request) -> Result<Client::Request, crate::client::ApiError<Client::Response>> {"
        + "\n        use crate::client::Request;"
        + "\n        Ok(req"
        + "\n        .header(http::header::CONTENT_TYPE.as_str(), \"application/yaml\")"
        + "\n        .body_bytes({\n            let mut vec = vec![];\n            serde_yaml::to_writer(&mut vec, &self.inner.body)?;\n            vec\n        })"
        + "\n        .header(http::header::ACCEPT.as_str(), \"application/json\")"
        + "\n        .multipart_form_data({\n            use crate::client::Form;\n            let mut form = <Client::Request as Request>::Form::new();"
        + "\n            if let Some(v) = self.inner.param_name.as_ref() {\n                form = form.text(\"name\", v.to_string());\n            }"
        + "\n            if let Some(v) = self.inner.param_file.as_ref() {\n                form = form.file(\"file\", v)?;\n            }"
        + "\n            form\n        })"
        + "\n        .query({"
        + "\n            &self.inner.param_tags.as_ref().map(|v| {\n                v.iter().map(|v| (\"tags\", v.to_string())).collect::<Vec<_>>()\n            }).unwrap_or_default()"
        + "\n        })"
        + ")\n    }"
        + "\n}\n"
        + "\nimpl<Any: serde::Serialize> crate::client::ResponseWrapper<serde_json::Value, PetPostBuilder<Any>> {"
        + "\n    #[inline]\n    pub fn x_rate_limit(&self) -> Option<i64> {"
        + "\n        self.headers.get(\"X-Rate-Limit\").and_then(|v| String::from_utf8_lossy(v.as_ref()).parse().ok())\n    }"
        + "\n}\n";
    assert_eq!(render(&b), expected);
}

#[test]
fn urlencoded_form_and_file_response() {
    let mut b = builder();
    b.rel_path = Some(String::from("/upload"));
    b.method = Some(HttpMethod::Put);
    b.is_list_op = false;
    b.response_is_file = true;
    b.response_ty_path = Some(String::from("Blob"));
    let mut ids = field("ids", "ids", false, ParameterIn::FormData);
    ids.delimiting = vec![CollectionFormat::Multi];
    b.fields = vec![ids];
    let expected = String::new()
        + "\n#[async_trait::async_trait]\n"
        + "impl<Client: crate::client::ApiClient + Sync + 'static> crate::client::Sendable<Client> for PetGetBuilder {"
        + "\n    type Output = crate::util::ResponseStream<<<Client as crate::client::ApiClient>::Response as crate::client::Response>::Bytes, <<Client as crate::client::ApiClient>::Response as crate::client::Response>::Error>;"
        + "\n\n    const METHOD: http::Method = http::Method::PUT;"
        + "\n\n    fn rel_path(&self) -> std::borrow::Cow<'static, str> {"
        + "\n        \"/upload\".into()"
        + "\n    }"
        + "\n\n    fn modify(&self, req: Client::Request) -> Result<Client::Request, crate::client::ApiError<Client::Response>> {"
        + "\n        use crate::client::Request;"
        + "\n        Ok(req"
        + "\n        .body_bytes({\n            let mut ser = url::form_urlencoded::Serializer::new(String::new());"
        + "\n            if let Some(stuff) = self.param_ids.as_ref() {\n                for v in stuff.iter() {\n                    ser.append_pair(\"ids\", &v.to_string());\n                }\n            }"
        + "\n            ser.finish().into_bytes()\n        })"
        + "\n        .header(http::header::CONTENT_TYPE.as_str(), \"application/x-www-form-urlencoded\")"
        + ")\n    }"
        + "\n\n    async fn send(&self, client: &Client) -> Result<crate::client::ResponseWrapper<Self::Output, Self>, crate::client::ApiError<Client::Response>> {"
        + "\n        use crate::client::Response;\n        let resp = self.send_raw(client).await?;"
        + "\n        Ok(crate::client::ResponseWrapper::wrap(resp, |r| async {\n            Ok(crate::util::ResponseStream(r.stream()))\n        }).await.unwrap())\n    }"
        + "\n}\n";
    assert_eq!(render(&b), expected);
}

#[test]
fn sendable_fields_follow_the_builder_entries() {
    let params = vec![
        Parameter {
            name: String::from("petId"),
            description: None,
            ty_path: String::from("i64"),
            required: true,
            presence: ParameterIn::Path,
            delimiting: vec![],
        },
        Parameter {
            name: String::from("tagNames"),
            description: None,
            ty_path: String::from("Vec<String>"),
            required: false,
            presence: ParameterIn::Query,
            delimiting: vec![CollectionFormat::Multi],
        },
    ];
    let b = ApiObjectBuilder {
        idx: 0,
        is_list_op: false,
        multiple_builders_exist: false,
        rel_path: Some("/pets/{petId}"),
        helper_module_prefix: "crate::",
        op_id: None,
        method: Some(HttpMethod::Get),
        description: None,
        object: "Pet",
        body_required: false,
        fields: &[],
        global_params: &[],
        local_params: &params,
        response: None,
    };
    let entries: Vec<_> = b.struct_fields_iter().into_iter().map(|e| (e, false)).collect();
    let fields = sendable_fields(&entries);
    assert_eq!(fields.len(), 2);
    assert_eq!(fields[0].name, "petId");
    assert_eq!(fields[0].ident, "pet_id");
    assert!(fields[0].required);
    assert_eq!(fields[0].param_loc, Some(ParameterIn::Path));
    assert_eq!(fields[1].ident, "tag_names");
    assert!(!fields[1].required);
    assert_eq!(fields[1].delimiting, vec![CollectionFormat::Multi]);
    assert_eq!(fields[1].param_loc, Some(ParameterIn::Query));
}
