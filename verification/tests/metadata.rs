use manifmt::metadata::render_metadata;
use manifmt::model::{MetaEntry, MetaValue};

fn meta_value(value: &toml::Value) -> MetaValue {
    match value {
        toml::Value::Table(table) => MetaValue::Table(
            table
                .iter()
                .map(|(key, value)| MetaEntry { key: key.clone(), value: meta_value(value) })
                .collect(),
        ),
        toml::Value::Array(items) => {
            MetaValue::Array(items.iter().map(|item| item.to_string()).collect())
        }
        other => MetaValue::Scalar(other.to_string()),
    }
}

#[test]
fn metadata_of_a_document() {
    let source = "[package.metadata]\ncount = 3\nflag = true\nname = \"n\"\n\n[package.metadata.deb]\nassets = [[\"x\", \"y\"], [\"z\", \"w\"]]\n\n[package.metadata.docs.rs]\nfeatures = [\"a\", \"b\"]\ntargets = []\n";
    let doc: toml::Value = toml::from_str(source).unwrap();
    let metadata = meta_value(doc.get("package").unwrap().get("metadata").unwrap());
    let MetaValue::Table(entries) = metadata else { panic!("metadata is a table") };
    let lines = render_metadata("package.metadata", &entries);
    assert_eq!(
        lines.join("\n"),
        "\n[package.metadata]\ncount = 3\nflag = true\nname = \"n\"\n\n[package.metadata.deb]\nassets = [[\"x\", \"y\"], [\"z\", \"w\"]]\n\n[package.metadata.docs.rs]\nfeatures = [\"a\", \"b\"]\ntargets = []"
    );
}
