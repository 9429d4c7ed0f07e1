use licensure::comments::LineComment;
use licensure::template::{Authors, Context, CopyrightHolder, Template};

fn author() -> Authors {
    Authors::from(vec![CopyrightHolder {
        name: "Mathew Robinson".to_string(),
        email: Some("chasinglogic@gmail.com".to_string()),
    }])
}

#[test]
fn test_substitution_at_end_of_line() {
    let context = Context {
        ident: String::from("test"),
        authors: Authors::from(vec![]),
        year: Some(String::from("2020")),
        unwrap_text: true,
    };
    let template = Template::new("License [year]\ntext", context);
    let expected = String::from("License 2020 text");
    assert_eq!(expected, template.render().unwrap())
}

#[test]
fn test_substitutions() {
    let context = Context {
        ident: String::from("test"),
        authors: author(),
        year: Some(String::from("2020")),
        unwrap_text: true,
    };
    let template = Template::new("Copyright (C) [year] [name of author] This program is free software: you can redistribute it and/or modify it under the terms of the GNU Affero General Public License as published by the Free Software Foundation, version 3. This program is distributed in the hope that it will be useful, but WITHOUT ANY WARRANTY; without even the implied warranty of MERCHANTABILITY or FITNESS FOR A PARTICULAR PURPOSE. See the GNU Affero General Public License for more details. You should have received a copy of the GNU Affero General Public License along with this program. If not, see <https://www.gnu.org/licenses/>", context);
    let expected = String::from("Copyright (C) 2020 Mathew Robinson <chasinglogic@gmail.com> This program is free software: you can redistribute it and/or modify it under the terms of the GNU Affero General Public License as published by the Free Software Foundation, version 3. This program is distributed in the hope that it will be useful, but WITHOUT ANY WARRANTY; without even the implied warranty of MERCHANTABILITY or FITNESS FOR A PARTICULAR PURPOSE. See the GNU Affero General Public License for more details. You should have received a copy of the GNU Affero General Public License along with this program. If not, see <https://www.gnu.org/licenses/>");
    assert_eq!(expected, template.render().unwrap())
}

#[test]
fn test_outdated_license_matching() {
    let context = Context {
        ident: String::from("test"),
        authors: author(),
        year: Some(String::from("2022")),
        unwrap_text: false,
    };
    let template = Template::new(
        "Copyright (C) [year] [name of author] This program is free software.",
        context,
    );
    let commenter = LineComment::new("#");
    let re = template.outdated_license_pattern(&commenter, Option::Some(1000)).unwrap();
    assert_eq!(true, re.is_match("# Copyright (C) 2020 Mathew Robinson <chasinglogic@gmail.com> This program is free software.\n"))
}

#[test]
fn test_outdated_license_trimmed_matching() {
    let context = Context {
        ident: String::from("test"),
        authors: author(),
        year: Some(String::from("2022")),
        unwrap_text: false,
    };
    let template = Template::new(
        "Copyright (C) [year] [name of author] This program is free software.",
        context,
    );
    let commenter = LineComment::new("#").set_trailing_lines(2);
    let re = template.outdated_license_pattern(&commenter, Option::Some(1000)).unwrap();
    assert_eq!(true, re.is_match("# Copyright (C) 2020 Mathew Robinson <chasinglogic@gmail.com> This program is free software.\n\n\n"));
    assert_eq!(false, re.is_match("# Copyright (C) 2020 Mathew Robinson <chasinglogic@gmail.com> This program is free software."));

    let trimmed = template.outdated_license_trimmed_pattern(&commenter, Option::Some(1000)).unwrap();
    assert_eq!(true, trimmed.is_match("# Copyright (C) 2020 Mathew Robinson <chasinglogic@gmail.com> This program is free software."))
}

#[test]
fn test_substitutions_prewrapped() {
    let context = Context {
        ident: String::from("test"),
        authors: author(),
        year: Some(String::from("2020")),
        unwrap_text: true,
    };
    let template = Template::new(
        "Copyright (C) [year] [name of author] This
program is free software: you can redistribute it and/or modify it under
the terms of the GNU Affero General Public License as published by the
Free Software Foundation, version 3. This program is distributed in the
hope that it will be useful, but WITHOUT ANY WARRANTY; without even the
implied warranty of MERCHANTABILITY or FITNESS FOR A PARTICULAR PURPOSE.
See the GNU Affero General Public License for more details. You should
have received a copy of the GNU Affero General Public License along with
this program. If not, see <https://www.gnu.org/licenses/>",
        context,
    );
    let expected = String::from("Copyright (C) 2020 Mathew Robinson <chasinglogic@gmail.com> This program is free software: you can redistribute it and/or modify it under the terms of the GNU Affero General Public License as published by the Free Software Foundation, version 3. This program is distributed in the hope that it will be useful, but WITHOUT ANY WARRANTY; without even the implied warranty of MERCHANTABILITY or FITNESS FOR A PARTICULAR PURPOSE. See the GNU Affero General Public License for more details. You should have received a copy of the GNU Affero General Public License along with this program. If not, see <https://www.gnu.org/licenses/>");
    assert_eq!(expected, template.render().unwrap())
}

#[test]
fn test_substitutions_prewrapped_preserves_linebreaks() {
    let context = Context {
        ident: String::from("test"),
        authors: author(),
        year: Some(String::from("2020")),
        unwrap_text: true,
    };
    let template = Template::new(
        "Copyright (C) [year] [name of author] This
program is free software: you can redistribute it and/or modify it under
the terms of the GNU Affero General Public License as published by the

Free Software Foundation, version 3. This program is distributed in the
hope that it will be useful, but WITHOUT ANY WARRANTY; without even the
implied warranty of MERCHANTABILITY or FITNESS FOR A PARTICULAR PURPOSE.
See the GNU Affero General Public License for more details. You should
have received a copy of the GNU Affero General Public License along with
this program. If not, see <https://www.gnu.org/licenses/>",
        context,
    );
    let expected = String::from("Copyright (C) 2020 Mathew Robinson <chasinglogic@gmail.com> This program is free software: you can redistribute it and/or modify it under the terms of the GNU Affero General Public License as published by the

Free Software Foundation, version 3. This program is distributed in the hope that it will be useful, but WITHOUT ANY WARRANTY; without even the implied warranty of MERCHANTABILITY or FITNESS FOR A PARTICULAR PURPOSE. See the GNU Affero General Public License for more details. You should have received a copy of the GNU Affero General Public License along with this program. If not, see <https://www.gnu.org/licenses/>");
    assert_eq!(expected, template.render().unwrap())
}
